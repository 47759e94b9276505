//! The response sequencer of a pipelined connection: tickets are handed out
//! in decode order, and a finished response is released for writing only
//! once every response with a lower ticket has been released.

use vstd::prelude::*;

verus! {

/// The responses of tickets `lo .. hi`, joined in ticket order.
pub open spec fn concat_range(done: Map<nat, Seq<u8>>, lo: nat, hi: nat) -> Seq<u8>
    decreases hi - lo,
{
    if hi <= lo {
        Seq::<u8>::empty()
    } else {
        concat_range(done, lo, (hi - 1) as nat) + done[(hi - 1) as nat]
    }
}

proof fn lemma_concat_split(done: Map<nat, Seq<u8>>, lo: nat, mid: nat, hi: nat)
    requires
        lo <= mid <= hi,
    ensures
        concat_range(done, lo, hi) == concat_range(done, lo, mid) + concat_range(done, mid, hi),
    decreases hi - mid,
{
    if mid == hi {
        assert(concat_range(done, lo, hi) =~= concat_range(done, lo, mid) + concat_range(
            done,
            mid,
            hi,
        ));
    } else {
        lemma_concat_split(done, lo, mid, (hi - 1) as nat);
        assert(concat_range(done, lo, hi) =~= concat_range(done, lo, mid) + concat_range(
            done,
            mid,
            hi,
        ));
    }
}

proof fn lemma_concat_agree(a: Map<nat, Seq<u8>>, b: Map<nat, Seq<u8>>, lo: nat, hi: nat)
    requires
        forall|t: nat| lo <= t < hi ==> a[t] == b[t],
    ensures
        concat_range(a, lo, hi) == concat_range(b, lo, hi),
    decreases hi - lo,
{
    if hi > lo {
        lemma_concat_agree(a, b, lo, (hi - 1) as nat);
    }
}

/// The ordering gate of one pipelined connection.
pub struct ResponseSequencer {
    issued: u64,
    written: u64,
    /// `slots[i]` holds the finished, not yet released response of ticket
    /// `written + i`, if it has finished.
    slots: Vec<Option<Vec<u8>>>,
    done: Ghost<Map<nat, Seq<u8>>>,
}

impl ResponseSequencer {
    /// The number of tickets handed out so far; they are `0 .. issued`.
    pub closed spec fn issued(&self) -> nat {
        self.issued as nat
    }

    /// The number of responses released so far; they are those of tickets
    /// `0 .. written`.
    pub closed spec fn written(&self) -> nat {
        self.written as nat
    }

    /// The response of every ticket whose handler has finished.
    pub closed spec fn done(&self) -> Map<nat, Seq<u8>> {
        self.done@
    }

    /// Every byte released for writing so far, in the order released.
    pub open spec fn wire(&self) -> Seq<u8> {
        concat_range(self.done(), 0, self.written())
    }

    pub closed spec fn wf(&self) -> bool {
        &&& self.written <= self.issued
        &&& self.slots@.len() == self.issued - self.written
        &&& forall|i: int|
            0 <= i < self.slots@.len() ==> (#[trigger] self.slots@[i] is Some <==> self.done@.dom().contains(
                (self.written + i) as nat,
            ))
        &&& forall|i: int|
            0 <= i < self.slots@.len() && #[trigger] self.slots@[i] is Some ==> self.slots@[i].unwrap()@
                == self.done@[(self.written + i) as nat]
        &&& forall|t: nat| #[trigger] self.done@.dom().contains(t) ==> t < self.issued
        &&& forall|t: nat| t < self.written ==> #[trigger] self.done@.dom().contains(t)
        &&& self.written < self.issued ==> !self.done@.dom().contains(self.written as nat)
    }

    /// A gate with no tickets handed out.
    pub fn new() -> (r: ResponseSequencer)
        ensures
            r.wf(),
            r.issued() == 0,
            r.written() == 0,
            r.done() == Map::<nat, Seq<u8>>::empty(),
    {
        ResponseSequencer { issued: 0, written: 0, slots: Vec::new(), done: Ghost(Map::empty()) }
    }

    /// Hands out the next ticket, which is the number of tickets handed out
    /// before it. `None` only once every `u64` ticket is taken.
    pub fn next_ticket(&mut self) -> (r: Option<u64>)
        requires
            old(self).wf(),
        ensures
            final(self).wf(),
            final(self).written() == old(self).written(),
            final(self).done() == old(self).done(),
            old(self).issued() < u64::MAX ==> r == Some(old(self).issued() as u64)
                && final(self).issued() == old(self).issued() + 1,
            old(self).issued() == u64::MAX ==> r is None && final(self).issued()
                == old(self).issued(),
    {
        if self.issued == u64::MAX {
            return None;
        }
        let t = self.issued;
        self.slots.push(None);
        self.issued = t + 1;
        proof {
            assert(self.slots@.last() is None);
        }
        Some(t)
    }

    /// Whether `ticket` has been handed out and its response not yet given.
    pub fn is_awaiting(&self, ticket: u64) -> (r: bool)
        requires
            self.wf(),
        ensures
            r == (ticket < self.issued() && !self.done().dom().contains(ticket as nat)),
    {
        if ticket >= self.issued {
            false
        } else if ticket < self.written {
            false
        } else {
            let n = self.slots.len();
            assert(ticket - self.written < n);
            let i = (ticket - self.written) as usize;
            assert(self.slots@[i as int] is Some <==> self.done@.dom().contains(ticket as nat));
            self.slots[i].is_none()
        }
    }

    /// Takes the finished response of `ticket` and releases, in ticket
    /// order, every response that is now next in line. Each released
    /// response is whole, and together they extend the wire by exactly the
    /// responses of the tickets newly admitted. `None`, with nothing
    /// changed, when `ticket` is not awaiting its response.
    pub fn complete(&mut self, ticket: u64, response: Vec<u8>) -> (r: Option<Vec<Vec<u8>>>)
        requires
            old(self).wf(),
        ensures
            final(self).wf(),
            final(self).issued() == old(self).issued(),
            !(ticket < old(self).issued() && !old(self).done().dom().contains(ticket as nat))
                ==> r is None && final(self).done() == old(self).done() && final(self).written()
                == old(self).written(),
            (ticket < old(self).issued() && !old(self).done().dom().contains(ticket as nat))
                ==> r is Some && final(self).done() == old(self).done().insert(
                ticket as nat,
                response@,
            ),
            r matches Some(out) ==> {
                &&& old(self).written() <= final(self).written()
                &&& forall|t: nat|
                    old(self).written() <= t < final(self).written() ==> #[trigger] final(self).done().dom().contains(t)
                &&& (final(self).written() == final(self).issued() || !final(self).done().dom().contains(
                    final(self).written(),
                ))
                &&& out@.len() == final(self).written() - old(self).written()
                &&& forall|i: int|
                    0 <= i < out@.len() ==> #[trigger] out@[i]@ == final(self).done()[(old(self).written() + i) as nat]
                &&& final(self).wire() == old(self).wire() + concat_range(
                    final(self).done(),
                    old(self).written(),
                    final(self).written(),
                )
            },
    {
        if !self.is_awaiting(ticket) {
            return None;
        }
        let ghost old_done = self.done@;
        let ghost start = self.written as nat;
        let n = self.slots.len();
        assert(ticket - self.written < n);
        let idx = (ticket - self.written) as usize;
        let ghost resp = response@;
        let ghost before = self.slots@;
        proof {
            self.done = Ghost(self.done@.insert(ticket as nat, resp));
        }
        self.slots.set(idx, Some(response));
        proof {
            assert forall|i: int| 0 <= i < self.slots@.len() && i != idx implies #[trigger] self.slots@[i]
                == before[i] by {}
            assert(self.slots@[idx as int].unwrap()@ == resp);
        }
        let mut out: Vec<Vec<u8>> = Vec::new();
        while self.slots.len() > 0 && self.slots[0].is_some()
            invariant
                start <= self.written <= self.issued,
                self.issued == old(self).issued,
                self.done@ == old_done.insert(ticket as nat, resp),
                self.slots@.len() == self.issued - self.written,
                forall|i: int|
                    0 <= i < self.slots@.len() ==> (#[trigger] self.slots@[i] is Some <==> self.done@.dom().contains(
                        (self.written + i) as nat,
                    )),
                forall|i: int|
                    0 <= i < self.slots@.len() && #[trigger] self.slots@[i] is Some ==> self.slots@[i].unwrap()@
                        == self.done@[(self.written + i) as nat],
                forall|t: nat| #[trigger] self.done@.dom().contains(t) ==> t < self.issued,
                forall|t: nat| t < self.written ==> #[trigger] self.done@.dom().contains(t),
                out@.len() == self.written - start,
                forall|i: int| 0 <= i < out@.len() ==> #[trigger] out@[i]@ == self.done@[(start + i) as nat],
            decreases self.slots@.len(),
        {
            let ghost w = self.written;
            let ghost before = self.slots@;
            let slot = self.slots.remove(0);
            proof {
                assert(self.done@.dom().contains(w as nat));
                assert(forall|i: int| 0 <= i < self.slots@.len() ==> self.slots@[i] == before[i + 1]);
            }
            match slot {
                Some(b) => {
                    out.push(b);
                },
                None => {},
            }
            self.written = self.written + 1;
        }
        proof {
            lemma_concat_agree(old_done, self.done@, 0, start);
            lemma_concat_split(self.done@, 0, start, self.written as nat);
        }
        Some(out)
    }
}

/// Whatever order the handlers finish in, once every ticket handed out has
/// its response, all of them have been released, and the bytes released are
/// the responses joined in ticket order, which is the order of arrival.
pub proof fn lemma_all_complete_wire_is_arrival_order(s: ResponseSequencer)
    requires
        s.wf(),
        forall|t: nat| t < s.issued() ==> #[trigger] s.done().dom().contains(t),
    ensures
        s.written() == s.issued(),
        s.wire() == concat_range(s.done(), 0, s.issued()),
{
}

/// The bytes released never interleave two responses: each released
/// response stands whole and unbroken on the wire, right after the
/// responses of all lower tickets.
pub proof fn lemma_wire_is_whole_responses(s: ResponseSequencer, t: nat)
    requires
        s.wf(),
        t < s.written(),
    ensures
        s.wire().subrange(
            concat_range(s.done(), 0, t).len() as int,
            (concat_range(s.done(), 0, t).len() + s.done()[t].len()) as int,
        ) == s.done()[t],
{
    lemma_concat_split(s.done(), 0, t + 1, s.written());
    let head = concat_range(s.done(), 0, t);
    assert(concat_range(s.done(), 0, t + 1) == head + s.done()[t]);
    assert(s.wire() == head + s.done()[t] + concat_range(s.done(), t + 1, s.written()));
    assert(s.wire().subrange(head.len() as int, (head.len() + s.done()[t].len()) as int) =~= s.done()[t]);
}

} // verus!
