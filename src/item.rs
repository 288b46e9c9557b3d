use vstd::prelude::*;

use crate::mark::{glyph, MarkState};

verus! {

/// A value that can be shown as text.
pub trait Render {
    /// The text this value is shown as.
    spec fn text(&self) -> Seq<char>;

    fn render(&self) -> (r: String)
        ensures
            r@ == self.text(),
    ;
}

impl Render for String {
    open spec fn text(&self) -> Seq<char> {
        self@
    }

    fn render(&self) -> (r: String) {
        self.clone()
    }
}

impl Render for MarkState {
    open spec fn text(&self) -> Seq<char> {
        glyph(*self)
    }

    fn render(&self) -> (r: String) {
        match self {
            MarkState::Unmarked => {
                proof {
                    reveal_strlit("[ ]");
                }
                String::from_str("[ ]")
            },
            MarkState::Marked => {
                proof {
                    reveal_strlit("[x]");
                }
                String::from_str("[x]")
            },
        }
    }
}

/// A payload together with its mark state.
#[derive(Clone, Copy, Debug)]
pub struct Item<T> {
    pub mark_state: MarkState,
    pub data: T,
}

/// The item that wraps `data` when it enters a list.
pub open spec fn fresh<T>(data: T) -> Item<T> {
    Item { mark_state: MarkState::Unmarked, data }
}

impl<T> From<T> for Item<T> {
    fn from(value: T) -> (r: Item<T>) {
        Item { mark_state: MarkState::new(), data: value }
    }
}

impl<T> vstd::std_specs::convert::FromSpecImpl<T> for Item<T> {
    open spec fn obeys_from_spec() -> bool {
        true
    }

    open spec fn from_spec(v: T) -> Item<T> {
        fresh(v)
    }
}

/// The text of an item: its glyph, one space, then the payload's text.
pub open spec fn item_text(mark: MarkState, payload: Seq<char>) -> Seq<char> {
    glyph(mark) + seq![' '] + payload
}

/// An item's text is one of the two glyphs, one space, then the payload's
/// text unchanged; the glyph gives the mark back and the rest the payload.
pub proof fn lemma_item_text_form(mark: MarkState, payload: Seq<char>)
    ensures
        glyph(mark) == seq!['[', ' ', ']'] || glyph(mark) == seq!['[', 'x', ']'],
        item_text(mark, payload).len() == payload.len() + 4,
        item_text(mark, payload).take(3) == glyph(mark),
        item_text(mark, payload)[3] == ' ',
        item_text(mark, payload).skip(4) == payload,
        (item_text(mark, payload)[1] == 'x') == (mark == MarkState::Marked),
{
    let t = item_text(mark, payload);
    assert(t.take(3) =~= glyph(mark));
    assert(t.skip(4) =~= payload);
}

impl<T: Render> Render for Item<T> {
    open spec fn text(&self) -> Seq<char> {
        item_text(self.mark_state, self.data.text())
    }

    fn render(&self) -> (r: String) {
        let head = self.mark_state.render();
        proof {
            reveal_strlit(" ");
        }
        let spaced = head.concat(" ");
        let payload = self.data.render();
        spaced.concat(payload.as_str())
    }
}

} // verus!
