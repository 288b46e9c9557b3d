use vstd::prelude::*;

verus! {

/// Whether an item is selected for a later batch operation.
#[derive(Clone, Copy, Debug, PartialEq, Eq, Structural)]
pub enum MarkState {
    Unmarked,
    Marked,
}

/// A command that changes a mark state.
#[derive(Clone, Copy, Debug, PartialEq, Eq, Structural)]
pub enum MarkAction {
    Mark,
    Unmark,
    Toggle,
}

/// The state opposite to `s`.
pub open spec fn flipped(s: MarkState) -> MarkState {
    match s {
        MarkState::Unmarked => MarkState::Marked,
        MarkState::Marked => MarkState::Unmarked,
    }
}

/// The state that `action` turns `s` into.
pub open spec fn apply(s: MarkState, action: MarkAction) -> MarkState {
    match action {
        MarkAction::Mark => MarkState::Marked,
        MarkAction::Unmark => MarkState::Unmarked,
        MarkAction::Toggle => flipped(s),
    }
}

/// The three characters a mark state is shown as.
pub open spec fn glyph(s: MarkState) -> Seq<char> {
    match s {
        MarkState::Unmarked => seq!['[', ' ', ']'],
        MarkState::Marked => seq!['[', 'x', ']'],
    }
}

impl MarkState {
    /// A fresh state: unmarked.
    pub fn new() -> (r: MarkState)
        ensures
            r == MarkState::Unmarked,
    {
        MarkState::Unmarked
    }

    /// Whether the two states are the same.
    pub fn is(&self, state: &MarkState) -> (r: bool)
        ensures
            r == (*self == *state),
    {
        *self == *state
    }

    /// Replaces the state by what `action` makes of it.
    pub fn act(&mut self, action: &MarkAction)
        ensures
            *final(self) == apply(*old(self), *action),
    {
        *self = match action {
            MarkAction::Mark => MarkState::Marked,
            MarkAction::Unmark => MarkState::Unmarked,
            MarkAction::Toggle => match self {
                MarkState::Unmarked => MarkState::Marked,
                MarkState::Marked => MarkState::Unmarked,
            },
        };
    }
}

/// Toggling twice gives back the state one started from; marking or
/// unmarking a second time changes nothing.
pub proof fn lemma_act_twice(s: MarkState, action: MarkAction)
    ensures
        action == MarkAction::Toggle ==> apply(apply(s, action), action) == s,
        action != MarkAction::Toggle ==> apply(apply(s, action), action) == apply(s, action),
{
}

} // verus!
