//! A cursor that walks an owned sequence forwards and backwards.
//!
//! The cursor counts the items it has handed out. With `position` items
//! consumed, `next` hands out the item at index `position`, `recall` shows the
//! one at `position - 1` and `peek` the one at `position + 1`. The position
//! never leaves the range from zero to the number of items.

use vstd::prelude::*;

verus! {

/// The state of a cursor as mathematics: the items it walks, and how many of
/// them have been consumed.
pub struct Track<T> {
    pub items: Seq<T>,
    pub position: nat,
}

impl<T> Track<T> {
    /// The position lies within the items or just behind the last one.
    pub open spec fn wf(self) -> bool {
        self.position <= self.items.len()
    }

    /// The state before anything was consumed.
    pub open spec fn start(items: Seq<T>) -> Self {
        Track { items, position: 0 }
    }

    /// The same items with the position at `target`, or behind the last item
    /// where `target` lies further out.
    pub open spec fn seek(self, target: nat) -> Self {
        Track {
            items: self.items,
            position: if target <= self.items.len() {
                target
            } else {
                self.items.len()
            },
        }
    }

    /// The item handed out by a step forward: the one at the position, if
    /// there is one.
    pub open spec fn next_item(self) -> Option<T> {
        if self.position < self.items.len() {
            Some(self.items[self.position as int])
        } else {
            None
        }
    }

    /// The state after a step forward: one further, unless every item was
    /// consumed already.
    pub open spec fn after_next(self) -> Self {
        if self.position < self.items.len() {
            Track { items: self.items, position: self.position + 1 }
        } else {
            self
        }
    }

    /// The item handed out by a step back: the one just before the new
    /// position, two before the old one, if there is one.
    pub open spec fn prev_item(self) -> Option<T> {
        if 2 <= self.position <= self.items.len() {
            Some(self.items[self.position - 2])
        } else {
            None
        }
    }

    /// The state after a step back: one back, unless nothing was consumed.
    pub open spec fn after_prev(self) -> Self {
        if self.position > 0 {
            Track { items: self.items, position: (self.position - 1) as nat }
        } else {
            self
        }
    }

    /// The item consumed last: the one just before the position.
    pub open spec fn recalled(self) -> Option<T> {
        if 1 <= self.position <= self.items.len() {
            Some(self.items[self.position - 1])
        } else {
            None
        }
    }

    /// The item one past the position: the one that follows the item that
    /// the next step forward hands out.
    pub open spec fn peeked(self) -> Option<T> {
        if self.position + 1 < self.items.len() {
            Some(self.items[self.position as int + 1])
        } else {
            None
        }
    }

    /// The state after `count` steps forward.
    pub open spec fn after_nexts(self, count: nat) -> Self
        decreases count,
    {
        if count == 0 {
            self
        } else {
            self.after_nexts((count - 1) as nat).after_next()
        }
    }
}

/// The position never leaves its range: the start is within bounds, and a
/// step forward, a step back and a jump each lead from a state within bounds
/// to a state within bounds over the same items.
pub proof fn lemma_moves_stay_within<T>(state: Track<T>, target: nat)
    requires
        state.wf(),
    ensures
        Track::start(state.items).wf(),
        state.after_next().wf() && state.after_next().items == state.items,
        state.after_prev().wf() && state.after_prev().items == state.items,
        state.seek(target).wf() && state.seek(target).items == state.items,
{
}

/// Stepping forward from the start hands out the items in order, each once:
/// after `count` steps the position is `count`, or the number of items where
/// there are fewer, and the step that follows hands out the item at index
/// `count`, or nothing once the items are used up, from then on every time.
pub proof fn lemma_next_enumerates<T>(items: Seq<T>, count: nat)
    ensures
        Track::start(items).after_nexts(count).items == items,
        count <= items.len() ==> Track::start(items).after_nexts(count).position == count,
        count >= items.len() ==> Track::start(items).after_nexts(count).position == items.len(),
        count < items.len() ==> Track::start(items).after_nexts(count).next_item() == Some(
            items[count as int],
        ),
        count >= items.len() ==> Track::start(items).after_nexts(count).next_item().is_none(),
    decreases count,
{
    if count > 0 {
        lemma_next_enumerates(items, (count - 1) as nat);
    }
}

/// A step forward that hands out nothing changes nothing.
pub proof fn lemma_exhausted_stays<T>(state: Track<T>)
    requires
        state.next_item().is_none(),
    ensures
        state.after_next() == state,
{
}

/// After a step forward that handed out an item, that item is the one
/// recalled.
pub proof fn lemma_recall_shows_last_next<T>(state: Track<T>)
    requires
        state.wf(),
        state.next_item().is_some(),
    ensures
        state.after_next().recalled() == state.next_item(),
{
}

/// A step back undoes a step forward that handed out an item: it leads back
/// to the state before, so that the next step forward hands out the same item
/// again, and it hands out the item that was recalled before.
pub proof fn lemma_prev_undoes_next<T>(state: Track<T>)
    requires
        state.wf(),
        state.next_item().is_some(),
    ensures
        state.after_next().after_prev() == state,
        state.after_next().after_prev().next_item() == state.next_item(),
        state.after_next().prev_item() == state.recalled(),
{
}

/// A step back at the start hands out nothing and stays at the start.
pub proof fn lemma_prev_at_start<T>(items: Seq<T>)
    ensures
        Track::start(items).prev_item().is_none(),
        Track::start(items).after_prev() == Track::start(items),
{
}

/// A jump to zero leads to the start, whatever was consumed.
pub proof fn lemma_seek_zero_restarts<T>(state: Track<T>)
    ensures
        state.seek(0) == Track::start(state.items),
{
}

/// Looking ahead skips one item: what `peeked` shows is what the second of
/// two steps forward hands out, and nothing where the first step hands out
/// nothing.
pub proof fn lemma_peek_is_second_next<T>(state: Track<T>)
    requires
        state.wf(),
    ensures
        state.next_item().is_some() ==> state.peeked() == state.after_next().next_item(),
        state.next_item().is_none() ==> state.peeked().is_none(),
{
}

/// A cursor over an owned sequence that can step forwards and backwards and
/// jump to a position.
pub struct BiIterator<T> where T: Copy + Clone {
    values: Vec<T>,
    pos: usize,
}

impl<T: Copy + Clone> View for BiIterator<T> {
    type V = Track<T>;

    closed spec fn view(&self) -> Track<T> {
        Track { items: self.values@, position: self.pos as nat }
    }
}

impl<T: Copy + Clone> BiIterator<T> {
    #[verifier::type_invariant]
    spec fn within_bounds(self) -> bool {
        self.pos <= self.values.len()
    }

    /// Steps forward: hands out the item at the position and moves one
    /// further. With every item consumed it hands out nothing and stays.
    pub fn next(&mut self) -> (item: Option<T>)
        ensures
            item == old(self)@.next_item(),
            final(self)@ == old(self)@.after_next(),
            final(self)@.wf(),
    {
        proof {
            use_type_invariant(&*self);
        }
        if self.pos < self.values.len() {
            let item = self.values[self.pos];
            self.pos = self.pos + 1;
            Some(item)
        } else {
            None
        }
    }

    /// Jumps to `new_pos`, or behind the last item where `new_pos` lies
    /// further out.
    pub fn position(&mut self, new_pos: usize)
        ensures
            final(self)@ == old(self)@.seek(new_pos as nat),
            final(self)@.wf(),
    {
        proof {
            use_type_invariant(&*self);
        }
        if new_pos <= self.values.len() {
            self.pos = new_pos;
        } else {
            self.pos = self.values.len();
        }
    }

    /// Steps back: moves one back and hands out the item just before the new
    /// position. With nothing consumed it hands out nothing and stays; with
    /// one item consumed it moves to the start and hands out nothing.
    pub fn prev(&mut self) -> (item: Option<T>)
        ensures
            item == old(self)@.prev_item(),
            final(self)@ == old(self)@.after_prev(),
            final(self)@.wf(),
    {
        proof {
            use_type_invariant(&*self);
        }
        if self.pos == 0 {
            return None;
        }
        self.pos = self.pos - 1;
        if self.pos == 0 {
            None
        } else {
            Some(self.values[self.pos - 1])
        }
    }

    /// How many items have been consumed.
    pub fn get_pos(&self) -> (pos: usize)
        ensures
            pos == self@.position,
            self@.wf(),
    {
        proof {
            use_type_invariant(self);
        }
        self.pos
    }

    /// Shows the item consumed last, if any, without moving.
    pub fn recall(&self) -> (item: Option<&T>)
        ensures
            item matches Some(shown) ==> self@.recalled() == Some(*shown),
            item.is_none() ==> self@.recalled().is_none(),
            self@.wf(),
    {
        proof {
            use_type_invariant(self);
        }
        if self.pos == 0 {
            None
        } else {
            Some(&self.values[self.pos - 1])
        }
    }

    /// Shows the item one past the position, if any, without moving.
    pub fn peek(&self) -> (item: Option<&T>)
        ensures
            item matches Some(shown) ==> self@.peeked() == Some(*shown),
            item.is_none() ==> self@.peeked().is_none(),
            self@.wf(),
    {
        proof {
            use_type_invariant(self);
        }
        if self.pos < self.values.len() && self.pos + 1 < self.values.len() {
            Some(&self.values[self.pos + 1])
        } else {
            None
        }
    }
}

impl<T: Copy + Clone> Clone for BiIterator<T> {
    /// A second cursor over the same items at the same position.
    fn clone(&self) -> (copy: Self)
        ensures
            copy@ == self@,
            copy@.wf(),
    {
        proof {
            use_type_invariant(self);
        }
        let mut values: Vec<T> = Vec::with_capacity(self.values.len());
        let mut i: usize = 0;
        while i < self.values.len()
            invariant
                i <= self.values.len(),
                values@ == self.values@.take(i as int),
            decreases self.values.len() - i,
        {
            values.push(self.values[i]);
            assert(self.values@.take(i + 1) == self.values@.take(i as int).push(self.values@[i as int]));
            i = i + 1;
        }
        assert(self.values@.take(self.values@.len() as int) == self.values@);
        BiIterator { values, pos: self.pos }
    }
}

impl<T: Copy + Clone> From<Vec<T>> for BiIterator<T> {
    /// A cursor over `input` with nothing consumed.
    fn from(input: Vec<T>) -> (cursor: Self)
        ensures
            cursor@ == Track::start(input@),
            cursor@.wf(),
    {
        Self { values: input, pos: 0 }
    }
}

impl<T: Copy + Clone> vstd::std_specs::convert::FromSpecImpl<Vec<T>> for BiIterator<T> {
    open spec fn obeys_from_spec() -> bool {
        true
    }

    closed spec fn from_spec(input: Vec<T>) -> Self {
        BiIterator { values: input, pos: 0 }
    }
}

} // verus!
