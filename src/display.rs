use vstd::prelude::*;

use ratatui::style::Style;

use crate::item::{Item, Render};
use crate::list::{window, List};

verus! {

/// ratatui's `Style`, carried through as an opaque value: the view only
/// copies it into the rows it paints.
#[verifier::external_type_specification]
#[verifier::external_body]
pub struct ExStyle(Style);

/// Relies on ratatui's `Style::default`, the style that changes nothing;
/// nothing about the value is assumed.
pub assume_specification[ <Style as core::default::Default>::default ]() -> Style;

/// Rows of a view that borders and header take, so hold no item.
pub const RESERVED_ROWS: u16 = 4;

/// The cursor, the first visible position and the two row styles of a view.
pub struct DisplayState {
    /// Position of the first visible item.
    pub offset: usize,
    /// Position of the item under the cursor.
    pub current: usize,
    /// Style of borders and of rows away from the cursor.
    pub normal: Style,
    /// Style of the row under the cursor.
    pub highlight: Style,
}

/// A new style for one of the two kinds of row.
pub enum ListStyle {
    Highlight { style: Style },
    Normal { style: Style },
}

/// A cursor movement.
#[derive(Clone, Copy, Debug, PartialEq, Eq, Structural)]
pub enum ListMoves {
    Up,
    Down,
}

/// What a cursor movement did.
#[derive(Clone, Copy, Debug, PartialEq, Eq, Structural)]
pub enum MoveOutcome {
    /// The cursor moved by one position.
    Moved,
    /// The cursor was at the edge of the list and stayed.
    AtEdge,
}

impl Default for DisplayState {
    fn default() -> (r: DisplayState)
        ensures
            r.offset == 0,
            r.current == 0,
    {
        DisplayState { offset: 0, current: 0, normal: Style::default(), highlight: Style::default() }
    }
}

impl DisplayState {
    /// Moves the cursor one position up or down within a list of `len`
    /// items; at the first position up, and at the last down, it stays.
    pub fn act(&mut self, movement: ListMoves, len: usize) -> (r: MoveOutcome)
        ensures
            final(self).offset == old(self).offset,
            final(self).normal == old(self).normal,
            final(self).highlight == old(self).highlight,
            movement == ListMoves::Up ==> {
                if old(self).current > 0 {
                    r == MoveOutcome::Moved && final(self).current == old(self).current - 1
                } else {
                    r == MoveOutcome::AtEdge && final(self).current == old(self).current
                }
            },
            movement == ListMoves::Down ==> {
                if old(self).current + 1 < len {
                    r == MoveOutcome::Moved && final(self).current == old(self).current + 1
                } else {
                    r == MoveOutcome::AtEdge && final(self).current == old(self).current
                }
            },
    {
        match movement {
            ListMoves::Up => {
                if self.current > 0 {
                    self.current = self.current - 1;
                    MoveOutcome::Moved
                } else {
                    MoveOutcome::AtEdge
                }
            },
            ListMoves::Down => {
                if len > 0 && self.current < len - 1 {
                    self.current = self.current + 1;
                    MoveOutcome::Moved
                } else {
                    MoveOutcome::AtEdge
                }
            },
        }
    }

    /// Sets the style of one kind of row.
    pub fn style(&mut self, style: ListStyle)
        ensures
            final(self).offset == old(self).offset,
            final(self).current == old(self).current,
            match style {
                ListStyle::Normal { style } => final(self).normal == style && final(self).highlight
                    == old(self).highlight,
                ListStyle::Highlight { style } => final(self).highlight == style && final(self).normal
                    == old(self).normal,
            },
    {
        match style {
            ListStyle::Normal { style } => self.normal = style,
            ListStyle::Highlight { style } => self.highlight = style,
        }
    }
}

/// One line that a view paints: its row counted from the top of the
/// view, its text and its style.
pub struct Row {
    pub y: u16,
    pub text: String,
    pub style: Style,
}

/// How many items a view of `height` rows shows.
pub open spec fn capacity(height: u16) -> int {
    if height >= RESERVED_ROWS {
        height - RESERVED_ROWS
    } else {
        0
    }
}

/// A horizontal line `width` cells long.
pub open spec fn border(width: u16) -> Seq<char> {
    Seq::new(width as nat, |i: int| '\u{2500}')
}

/// Whether `row` is a border line at `y` in the normal style.
pub open spec fn is_border(row: Row, y: int, width: u16, state: DisplayState) -> bool {
    &&& row.y == y
    &&& row.text@ == border(width)
    &&& row.style == state.normal
}

fn border_line(width: u16) -> (r: String)
    ensures
        r@ == border(width),
{
    let mut line = String::new();
    let mut k: u16 = 0;
    while k < width
        invariant
            k <= width,
            line@ == Seq::new(k as nat, |i: int| '\u{2500}'),
        decreases width - k,
    {
        proof {
            reveal_strlit("\u{2500}");
        }
        line = line.concat("\u{2500}");
        k = k + 1;
        proof {
            assert(line@ =~= Seq::new(k as nat, |i: int| '\u{2500}'));
        }
    }
    line
}

impl<T: Render> List<T> {
    /// The rows a view of `width` by `height` cells paints: a border above
    /// the first item row, the visible window of items from `state.offset`
    /// with the one at `state.current` highlighted, and a border above the
    /// bottom row. A view too low for its borders paints nothing.
    pub fn layout(&self, state: &DisplayState, width: u16, height: u16) -> (r: Vec<Row>)
        ensures
            height < RESERVED_ROWS ==> r@.len() == 0,
            height >= RESERVED_ROWS ==> {
                let shown = window(self@, state.offset as int, capacity(height));
                &&& r@.len() == shown.len() + 2
                &&& is_border(r@[0], 1, width, *state)
                &&& is_border(r@[r@.len() - 1], height - 2, width, *state)
                &&& forall|i: int|
                    0 <= i < shown.len() ==> {
                        &&& (#[trigger] r@[i + 1]).y == i + 2
                        &&& r@[i + 1].text@ == shown[i].text()
                        &&& r@[i + 1].style == if state.offset + i == state.current {
                            state.highlight
                        } else {
                            state.normal
                        }
                    }
            },
    {
        let mut rows: Vec<Row> = Vec::new();
        if height < RESERVED_ROWS {
            return rows;
        }
        let n = self.len();
        let shown = self.displayed(state.offset, (height - RESERVED_ROWS) as usize);
        rows.push(Row { y: 1, text: border_line(width), style: state.normal });
        let mut i: usize = 0;
        while i < shown.len()
            invariant
                height >= RESERVED_ROWS,
                shown@ == window(self@, state.offset as int, capacity(height)),
                shown@.len() <= capacity(height),
                n == self@.len(),
                shown@.len() == 0 || state.offset + shown@.len() <= n,
                i <= shown@.len(),
                rows@.len() == i + 1,
                is_border(rows@[0], 1, width, *state),
                forall|j: int|
                    0 <= j < i ==> {
                        &&& (#[trigger] rows@[j + 1]).y == j + 2
                        &&& rows@[j + 1].text@ == shown@[j].text()
                        &&& rows@[j + 1].style == if state.offset + j == state.current {
                            state.highlight
                        } else {
                            state.normal
                        }
                    },
            decreases shown@.len() - i,
        {
            let item: &Item<T> = &shown[i];
            let style = if state.offset + i == state.current {
                state.highlight
            } else {
                state.normal
            };
            rows.push(Row { y: 2 + i as u16, text: item.render(), style });
            i = i + 1;
        }
        rows.push(Row { y: height - 2, text: border_line(width), style: state.normal });
        rows
    }
}

} // verus!
