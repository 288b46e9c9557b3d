//! A markable list: items that carry a mark flag, bulk mark actions over
//! index sets, a scrolling window, and the rows a terminal view paints.

mod branch;
mod display;
mod domain;
mod item;
mod list;
mod mark;

pub use branch::BranchDetails;
pub use display::{
    border, capacity, is_border, DisplayState, ListMoves, ListStyle, MoveOutcome, Row,
    RESERVED_ROWS,
};
pub use domain::{domain, find_from, first_or_end, get_domain, host_end, host_start, past};
pub use item::{fresh, item_text, lemma_item_text_form, Item, Render};
pub use list::{
    acted, all_in_bounds, in_state, lemma_mark_sets, lemma_mark_then_by_state,
    lemma_new_unmarked, lines_text, marked_after, marked_at, names, window, wrapped,
    IndexOutOfRange, List,
};
pub use mark::{apply, flipped, glyph, lemma_act_twice, MarkAction, MarkState};
