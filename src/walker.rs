use vstd::prelude::*;
use crate::message::{views, Message, MessageView};

verus! {

/// Where a walk through history stands.
#[derive(Clone, Copy, Debug, PartialEq, Eq, Structural)]
pub enum WalkPhase {
    /// A page older than the cursor is still to be fetched.
    Priming,
    /// Every page has been fetched; buffered messages remain to be handed out.
    Draining,
    /// Nothing is left.
    Exhausted,
}

/// Why a page was refused.
#[derive(Clone, Copy, Debug, PartialEq, Eq, Structural)]
pub enum WalkError {
    /// The walk was not waiting for a page.
    NotFetching,
    /// The page was not newest first, or held a message not older than the cursor.
    PageOutOfOrder,
}

/// The mathematical value of a [`Walker`].
pub ghost struct WalkerView {
    pub phase: WalkPhase,
    /// The exclusive upper bound on identifiers of the next page.
    pub cursor: u64,
    /// The messages fetched and not yet handed out, oldest first.
    pub pending: Seq<MessageView>,
}

/// The messages of `b` in the opposite order.
pub open spec fn reversed(b: Seq<Message>) -> Seq<MessageView> {
    Seq::new(b.len(), |i: int| b[b.len() - 1 - i]@)
}

/// A page as the store delivers it: identifiers strictly decrease (newest first)
/// and all lie below `cursor`.
pub open spec fn page_fits(page: Seq<MessageView>, cursor: u64) -> bool {
    &&& forall|i: int, j: int| 0 <= i < j < page.len() ==> page[j].id < page[i].id
    &&& forall|i: int| 0 <= i < page.len() ==> page[i].id < cursor
}

/// Walks a channel's history backward from a trigger message, one page at a
/// time, and then hands the messages out oldest first.
///
/// Each page is requested below the oldest message seen so far, so no message
/// is fetched twice and none between the oldest and the trigger is passed over.
pub struct Walker {
    phase: WalkPhase,
    cursor: u64,
    /// Fetched messages, newest first: the oldest is at the end.
    buffer: Vec<Message>,
}

impl View for Walker {
    type V = WalkerView;

    closed spec fn view(&self) -> WalkerView {
        WalkerView { phase: self.phase, cursor: self.cursor, pending: reversed(self.buffer@) }
    }
}

impl Walker {
    /// Pending messages are strictly increasing in identifier; while fetching, the
    /// oldest is at the cursor; a draining walk has some left and an exhausted one none.
    pub closed spec fn wf(&self) -> bool {
        &&& forall|i: int, j: int|
            0 <= i < j < self.buffer@.len() ==> self.buffer@[j].id < self.buffer@[i].id
        &&& self.phase == WalkPhase::Priming && self.buffer@.len() > 0 ==> self.buffer@.last().id
            == self.cursor
        &&& self.phase == WalkPhase::Draining ==> self.buffer@.len() > 0
        &&& self.phase == WalkPhase::Exhausted ==> self.buffer@.len() == 0
    }

    /// What well-formedness says of the view: a draining walk has pending
    /// messages, an exhausted one has none, and they are oldest first.
    pub proof fn lemma_wf(&self)
        requires
            self.wf(),
        ensures
            self@.phase == WalkPhase::Draining ==> self@.pending.len() > 0,
            self@.phase == WalkPhase::Exhausted ==> self@.pending.len() == 0,
            forall|i: int, j: int|
                0 <= i < j < self@.pending.len() ==> self@.pending[i].id < self@.pending[j].id,
    {
    }

    /// A walk that will first fetch the messages older than `trigger`.
    pub fn new(trigger: u64) -> (r: Walker)
        ensures
            r.wf(),
            r@.phase == WalkPhase::Priming,
            r@.cursor == trigger,
            r@.pending == Seq::<MessageView>::empty(),
    {
        let r = Walker { phase: WalkPhase::Priming, cursor: trigger, buffer: Vec::new() };
        assert(r@.pending =~= Seq::<MessageView>::empty());
        r
    }

    pub fn phase(&self) -> (r: WalkPhase)
        ensures
            r == self@.phase,
    {
        self.phase
    }

    /// The cursor of the next fetch, while one is due.
    pub fn next_fetch(&self) -> (r: Option<u64>)
        ensures
            self@.phase == WalkPhase::Priming ==> r == Some(self@.cursor),
            self@.phase != WalkPhase::Priming ==> r.is_none(),
    {
        match self.phase {
            WalkPhase::Priming => Some(self.cursor),
            _ => None,
        }
    }

    /// Takes the page fetched below the cursor, newest first.
    ///
    /// A non-empty page is buffered before everything pending and its oldest
    /// message becomes the cursor. An empty page ends the fetching: the walk
    /// drains what it holds, or is exhausted where it holds nothing.
    pub fn receive_page(&mut self, page: Vec<Message>) -> (r: Result<(), WalkError>)
        requires
            old(self).wf(),
        ensures
            final(self).wf(),
            old(self)@.phase != WalkPhase::Priming ==> r == Err::<(), WalkError>(WalkError::NotFetching),
            old(self)@.phase == WalkPhase::Priming && !page_fits(views(page@), old(self)@.cursor)
                ==> r == Err::<(), WalkError>(WalkError::PageOutOfOrder),
            r.is_err() ==> final(self)@ == old(self)@,
            old(self)@.phase == WalkPhase::Priming && page_fits(views(page@), old(self)@.cursor)
                ==> {
                &&& r.is_ok()
                &&& final(self)@.pending == reversed(page@) + old(self)@.pending
                &&& page@.len() > 0 ==> final(self)@.phase == WalkPhase::Priming
                    && final(self)@.cursor == page@.last().id
                &&& page@.len() == 0 && old(self)@.pending.len() > 0 ==> final(self)@.phase
                    == WalkPhase::Draining && final(self)@.cursor == old(self)@.cursor
                &&& page@.len() == 0 && old(self)@.pending.len() == 0 ==> final(self)@.phase
                    == WalkPhase::Exhausted && final(self)@.cursor == old(self)@.cursor
            },
    {
        if self.phase != WalkPhase::Priming {
            return Err(WalkError::NotFetching);
        }
        let n = page.len();
        let mut i: usize = 0;
        while i < n
            invariant
                n == page@.len(),
                i <= n,
                self.wf(),
                self.phase == WalkPhase::Priming,
                *self == *old(self),
                forall|a: int, b: int| 0 <= a < b <= i && b < n ==> page@[b].id < page@[a].id,
                forall|a: int| 0 <= a < i ==> page@[a].id < self.cursor,
            decreases n - i,
        {
            if page[i].id >= self.cursor || (i + 1 < n && page[i + 1].id >= page[i].id) {
                proof {
                    let v = views(page@);
                    assert(v[i as int].id == page@[i as int].id);
                    if i + 1 < n {
                        assert(v[i + 1].id == page@[i + 1].id);
                    }
                }
                assert(!page_fits(views(page@), self@.cursor));
                return Err(WalkError::PageOutOfOrder);
            }
            i = i + 1;
        }
        assert(page_fits(views(page@), self@.cursor));
        if n == 0 {
            if self.buffer.len() == 0 {
                self.phase = WalkPhase::Exhausted;
            } else {
                self.phase = WalkPhase::Draining;
            }
            assert(page@ + self.buffer@ =~= self.buffer@);
        } else {
            let ghost before = self.buffer@;
            let ghost fetched = page@;
            self.cursor = page[n - 1].id;
            let mut page = page;
            self.buffer.append(&mut page);
            assert(self.buffer@ == before + fetched);
            assert(reversed(self.buffer@) =~= reversed(fetched) + reversed(before));
            assert(reversed(self.buffer@) =~= reversed(page@) + reversed(self.buffer@));
        }
        Ok(())
    }

    /// Hands out the oldest pending message, once every page has been fetched.
    pub fn next_message(&mut self) -> (r: Option<Message>)
        requires
            old(self).wf(),
        ensures
            final(self).wf(),
            old(self)@.phase != WalkPhase::Draining ==> r.is_none() && final(self)@ == old(self)@,
            old(self)@.phase == WalkPhase::Draining ==> {
                &&& r.is_some()
                &&& r.unwrap()@ == old(self)@.pending[0]
                &&& final(self)@.pending == old(self)@.pending.drop_first()
                &&& final(self)@.cursor == old(self)@.cursor
                &&& final(self)@.phase == if final(self)@.pending.len() == 0 {
                    WalkPhase::Exhausted
                } else {
                    WalkPhase::Draining
                }
            },
    {
        if self.phase != WalkPhase::Draining {
            return None;
        }
        let m = self.buffer.pop().unwrap();
        if self.buffer.len() == 0 {
            self.phase = WalkPhase::Exhausted;
        }
        assert(reversed(self.buffer@) =~= reversed(old(self).buffer@).drop_first());
        Some(m)
    }
}

} // verus!
