use vstd::prelude::*;

use crate::item::{fresh, Item, Render};
use crate::mark::{apply, MarkAction, MarkState};

verus! {

/// An ordered collection of marked items; its order and length never change.
#[derive(Clone, Debug)]
pub struct List<T> {
    items: Vec<Item<T>>,
}

/// A mark action named a position that the list does not have.
#[derive(Clone, Copy, Debug, PartialEq, Eq, Structural)]
pub struct IndexOutOfRange {
    /// The first position of the request that lies outside the list.
    pub index: usize,
    /// The length of the list.
    pub len: usize,
}

impl<T> View for List<T> {
    type V = Seq<Item<T>>;

    closed spec fn view(&self) -> Seq<Item<T>> {
        self.items@
    }
}

/// Each payload wrapped as an unmarked item, in the same order.
pub open spec fn wrapped<T>(raw: Seq<T>) -> Seq<Item<T>> {
    raw.map_values(|t: T| fresh(t))
}

/// The items after `action` was applied at each position of `idx` in turn.
pub open spec fn acted<T>(items: Seq<Item<T>>, action: MarkAction, idx: Seq<usize>) -> Seq<Item<T>>
    decreases idx.len(),
{
    if idx.len() == 0 {
        items
    } else {
        let prev = acted(items, action, idx.drop_last());
        let p = idx.last() as int;
        prev.update(p, Item { mark_state: apply(prev[p].mark_state, action), data: prev[p].data })
    }
}

/// Every position of `idx` lies inside a list of `len` items.
pub open spec fn all_in_bounds(idx: Seq<usize>, len: nat) -> bool {
    forall|k: int| 0 <= k < idx.len() ==> (#[trigger] idx[k]) < len
}

/// Whether an item is in `state`.
pub open spec fn in_state<T>(state: MarkState) -> spec_fn(Item<T>) -> bool {
    |it: Item<T>| it.mark_state == state
}

/// The items from `start` on, at most `count` of them; none when `start`
/// lies at or past the end.
pub open spec fn window<T>(items: Seq<Item<T>>, start: int, count: int) -> Seq<Item<T>> {
    if start >= items.len() {
        Seq::empty()
    } else if start + count > items.len() {
        items.subrange(start, items.len() as int)
    } else {
        items.subrange(start, start + count)
    }
}

/// The whole list as text: each item's text followed by a line break.
pub open spec fn lines_text<T: Render>(items: Seq<Item<T>>) -> Seq<char>
    decreases items.len(),
{
    if items.len() == 0 {
        Seq::empty()
    } else {
        lines_text(items.drop_last()) + items.last().text() + seq!['\n']
    }
}

/// Whether `idx` names position `p`.
pub open spec fn names(idx: Seq<usize>, p: int) -> bool {
    exists|k: int| 0 <= k < idx.len() && idx[k] as int == p
}

/// The items with those at the positions of `idx` marked.
pub open spec fn marked_at<T>(items: Seq<Item<T>>, idx: Seq<usize>) -> Seq<Item<T>> {
    items.map(
        |p: int, it: Item<T>|
            if names(idx, p) {
                Item { mark_state: MarkState::Marked, data: it.data }
            } else {
                it
            },
    )
}

/// In list order, the items that sit at a position of `idx` or were marked
/// already, each now marked.
pub open spec fn marked_after<T>(items: Seq<Item<T>>, idx: Seq<usize>) -> Seq<Item<T>>
    decreases items.len(),
{
    if items.len() == 0 {
        Seq::empty()
    } else {
        let rest = marked_after(items.drop_last(), idx);
        let p = items.len() - 1;
        if names(idx, p) || items[p].mark_state == MarkState::Marked {
            rest.push(Item { mark_state: MarkState::Marked, data: items[p].data })
        } else {
            rest
        }
    }
}

/// A new list has as many items as it was given, each unmarked and
/// holding the payload of the same position.
pub proof fn lemma_new_unmarked<T>(raw: Seq<T>)
    ensures
        wrapped(raw).len() == raw.len(),
        forall|i: int|
            0 <= i < raw.len() ==> {
                &&& (#[trigger] wrapped(raw)[i]).mark_state == MarkState::Unmarked
                &&& wrapped(raw)[i].data == raw[i]
            },
{
}

/// Marking the positions of `idx` marks exactly those and leaves every
/// other item as it was.
pub proof fn lemma_mark_sets<T>(items: Seq<Item<T>>, idx: Seq<usize>)
    requires
        all_in_bounds(idx, items.len()),
    ensures
        acted(items, MarkAction::Mark, idx) == marked_at(items, idx),
    decreases idx.len(),
{
    if idx.len() == 0 {
        assert(marked_at(items, idx) =~= items);
    } else {
        let front = idx.drop_last();
        let q = idx.last();
        assert(all_in_bounds(front, items.len()));
        lemma_mark_sets(items, front);
        assert(q == idx[idx.len() - 1]);
        assert forall|p: int| 0 <= p < items.len() implies
            #[trigger] names(idx, p) == (names(front, p) || p == q as int) by {
            if names(front, p) {
                let j = choose|j: int| 0 <= j < front.len() && front[j] as int == p;
                assert(idx[j] as int == p);
            }
            if names(idx, p) && p != q as int {
                let j = choose|j: int| 0 <= j < idx.len() && idx[j] as int == p;
                assert(j != idx.len() - 1);
                assert(front[j] as int == p);
            }
            if p == q as int {
                assert(idx[idx.len() - 1] as int == p);
            }
        }
        assert(acted(items, MarkAction::Mark, idx) =~= marked_at(items, idx));
    }
}

proof fn lemma_marked_select<T>(items: Seq<Item<T>>, idx: Seq<usize>)
    ensures
        marked_at(items, idx).filter(in_state(MarkState::Marked)) == marked_after(items, idx),
    decreases items.len(),
{
    if items.len() > 0 {
        let front = items.drop_last();
        lemma_marked_select(front, idx);
        assert(marked_at(items, idx) =~= marked_at(front, idx).push(marked_at(items, idx).last()));
        marked_at(front, idx).lemma_filter_push(marked_at(items, idx).last(), in_state(MarkState::Marked));
    }
}

/// After marking the positions of `idx`, the marked items are those at a
/// position of `idx` together with those marked before, in list order.
pub proof fn lemma_mark_then_by_state<T>(items: Seq<Item<T>>, idx: Seq<usize>)
    requires
        all_in_bounds(idx, items.len()),
    ensures
        acted(items, MarkAction::Mark, idx).filter(in_state(MarkState::Marked)) == marked_after(items, idx),
{
    lemma_mark_sets(items, idx);
    lemma_marked_select(items, idx);
}

impl<T> List<T> {
    /// Wraps each payload as an unmarked item, keeping their order.
    pub fn new(items: Vec<T>) -> (r: List<T>)
        ensures
            r@ == wrapped(items@),
    {
        let ghost raw = items@;
        let mut wrapped_items: Vec<Item<T>> = Vec::new();
        for element in it: items.into_iter()
            invariant
                it.seq() == raw,
                wrapped_items@ == wrapped(raw.take(it.index() as int)),
        {
            proof {
                assert(raw.take(it.index() as int + 1) =~= raw.take(it.index() as int).push(element));
            }
            wrapped_items.push(Item::from(element));
            proof {
                assert(wrapped_items@ =~= wrapped(raw.take(it.index() as int + 1)));
            }
        }
        proof {
            assert(raw.take(raw.len() as int) =~= raw);
        }
        List { items: wrapped_items }
    }
}

impl<T> List<T> {
    /// Applies `action` at each position of `range`, in the order given.
    /// A position outside the list fails the whole request, which then
    /// changes nothing and names the first such position.
    pub fn act(&mut self, action: &MarkAction, range: &[usize]) -> (r: Result<(), IndexOutOfRange>)
        ensures
            final(self)@.len() == old(self)@.len(),
            r is Ok <==> all_in_bounds(range@, old(self)@.len()),
            r is Ok ==> final(self)@ == acted(old(self)@, *action, range@),
            r matches Err(e) ==> {
                &&& final(self)@ == old(self)@
                &&& e.len == old(self)@.len()
                &&& exists|k: int|
                    {
                        &&& 0 <= k < range@.len()
                        &&& #[trigger] range@[k] == e.index
                        &&& e.index >= old(self)@.len()
                        &&& all_in_bounds(range@.take(k), old(self)@.len())
                    }
            },
    {
        let n = self.items.len();
        let mut k: usize = 0;
        while k < range.len()
            invariant
                k <= range@.len(),
                n == self.items@.len(),
                self@ == old(self)@,
                all_in_bounds(range@.take(k as int), n as nat),
            decreases range@.len() - k,
        {
            if range[k] >= n {
                return Err(IndexOutOfRange { index: range[k], len: n });
            }
            proof {
                assert(range@.take(k as int + 1) =~= range@.take(k as int).push(range@[k as int]));
            }
            k = k + 1;
        }
        proof {
            assert(range@.take(range@.len() as int) =~= range@);
        }
        let ghost start = self@;
        let mut k: usize = 0;
        while k < range.len()
            invariant
                k <= range@.len(),
                all_in_bounds(range@, n as nat),
                start.len() == n,
                self.items@.len() == n,
                self@.len() == n,
                self@ == acted(start, *action, range@.take(k as int)),
            decreases range@.len() - k,
        {
            let p = range[k];
            self.items[p].mark_state.act(action);
            proof {
                let next = range@.take(k as int + 1);
                assert(next.drop_last() =~= range@.take(k as int));
                assert(self.items@ =~= acted(start, *action, next));
            }
            k = k + 1;
        }
        proof {
            assert(range@.take(range@.len() as int) =~= range@);
        }
        Ok(())
    }
}

impl<T> List<T> {
    /// The number of items.
    pub fn len(&self) -> (r: usize)
        ensures
            r == self@.len(),
    {
        self.items.len()
    }

    /// Whether the list holds no item.
    pub fn empty(&self) -> (r: bool)
        ensures
            r == (self@.len() == 0),
    {
        self.items.is_empty()
    }

    /// Every item, in order.
    pub fn all(&self) -> (r: &Vec<Item<T>>)
        ensures
            r@ == self@,
    {
        &self.items
    }

    /// The items in `state`, in their order in the list.
    pub fn by_state(&self, state: &MarkState) -> (r: Vec<&Item<T>>)
        ensures
            r@.map_values(|x: &Item<T>| *x) == self@.filter(in_state(*state)),
    {
        let mut found: Vec<&Item<T>> = Vec::new();
        let mut k: usize = 0;
        while k < self.items.len()
            invariant
                k <= self@.len(),
                found@.map_values(|x: &Item<T>| *x) == self@.take(k as int).filter(in_state(*state)),
            decreases self@.len() - k,
        {
            let element = &self.items[k];
            proof {
                assert(self@.take(k as int + 1) =~= self@.take(k as int).push(*element));
                self@.take(k as int).lemma_filter_push(*element, in_state(*state));
            }
            if element.mark_state.is(state) {
                found.push(element);
            }
            proof {
                assert(found@.map_values(|x: &Item<T>| *x) =~= self@.take(k as int + 1).filter(in_state(*state)));
            }
            k = k + 1;
        }
        proof {
            assert(self@.take(self@.len() as int) =~= self@);
        }
        found
    }

    /// Up to `len` items from position `start` on: none when `start` lies at
    /// or past the end, the rest of the list when fewer than `len` remain.
    pub fn displayed(&self, start: usize, len: usize) -> (r: &[Item<T>])
        ensures
            r@ == window(self@, start as int, len as int),
            r@.len() == if start >= self@.len() {
                0
            } else if len <= self@.len() - start {
                len as int
            } else {
                self@.len() - start
            },
            forall|i: int| 0 <= i < r@.len() ==> #[trigger] r@[i] == self@[start + i],
    {
        let n = self.items.len();
        let first = if start < n { start } else { n };
        let last = if len <= n - first { first + len } else { n };
        &self.items.as_slice()[first..last]
    }
}

impl<T: Render> Render for List<T> {
    open spec fn text(&self) -> Seq<char> {
        lines_text(self@)
    }

    fn render(&self) -> (r: String) {
        let mut out = String::new();
        let mut k: usize = 0;
        while k < self.items.len()
            invariant
                k <= self@.len(),
                out@ == lines_text(self@.take(k as int)),
            decreases self@.len() - k,
        {
            let line = self.items[k].render();
            proof {
                reveal_strlit("\n");
                assert(self@.take(k as int + 1).drop_last() =~= self@.take(k as int));
            }
            out = out.concat(line.as_str()).concat("\n");
            k = k + 1;
        }
        proof {
            assert(self@.take(self@.len() as int) =~= self@);
        }
        out
    }
}

} // verus!
