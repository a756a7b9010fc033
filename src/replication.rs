use vstd::prelude::*;

use vstd::slice::slice_to_vec;
use vstd::utf8::encode_utf8;

use crate::bytes::bytes_eq;
use crate::offset::Offset;

verus! {

/// A write waiting for followers to reach `waiting_for`; `wake_tx` is handed back, once, when
/// they have.
pub struct WaitingRequest<T> {
    pub waiting_for: Offset,
    pub wake_tx: T,
}

/// One entry of the acknowledgement table: a follower's identity (the bytes of its callback
/// address) and the highest offset it reported.
pub type Ack = (Seq<u8>, usize);

/// Number of followers in `acks` that reported an offset of at least `o`.
pub open spec fn count_at_least(acks: Seq<Ack>, o: usize) -> nat
    decreases acks.len(),
{
    if acks.len() == 0 {
        0
    } else {
        count_at_least(acks.drop_last(), o) + if acks.last().1 >= o {
            1nat
        } else {
            0nat
        }
    }
}

/// Whether a wait for offset `o` has its quorum: at least `k` followers are at `o` or beyond.
pub open spec fn quorum_reached(acks: Seq<Ack>, o: usize, k: usize) -> bool {
    count_at_least(acks, o) >= k
}

/// Whether no identity occurs twice in `acks`.
pub open spec fn distinct_identities(acks: Seq<Ack>) -> bool {
    forall|i: int, j: int| 0 <= i < j < acks.len() ==> acks[i].0 != acks[j].0
}

/// `acks` after `id` reported `o`: its entry is replaced, or added at the end.
pub open spec fn record_ack(acks: Seq<Ack>, id: Seq<u8>, o: usize) -> Seq<Ack> {
    if exists|i: int| 0 <= i < acks.len() && acks[i].0 == id {
        let i = choose|i: int| 0 <= i < acks.len() && acks[i].0 == id;
        acks.update(i, (id, o))
    } else {
        acks.push((id, o))
    }
}

/// Whether the waits are ordered by target offset, smallest first.
pub open spec fn ordered<T>(p: Seq<WaitingRequest<T>>) -> bool {
    forall|i: int, j: int| 0 <= i <= j < p.len() ==> p[i].waiting_for.0 <= p[j].waiting_for.0
}

/// Meeting a larger target is never easier: a quorum for `o2` is one for every `o1 <= o2`.
/// So once the smallest pending wait lacks its quorum, every larger one lacks it too.
pub proof fn lemma_smaller_target_easier(acks: Seq<Ack>, o1: usize, o2: usize, k: usize)
    requires
        o1 <= o2,
    ensures
        count_at_least(acks, o2) <= count_at_least(acks, o1),
        quorum_reached(acks, o2, k) ==> quorum_reached(acks, o1, k),
    decreases acks.len(),
{
    if acks.len() > 0 {
        lemma_smaller_target_easier(acks.drop_last(), o1, o2, k);
    }
}

/// The wake signals of `p`, in order.
pub open spec fn wake_signals<T>(p: Seq<WaitingRequest<T>>) -> Seq<T> {
    p.map_values(|w: WaitingRequest<T>| w.wake_tx)
}

/// Whether `after` is `before` with `w` inserted after every wait with a target no larger
/// and before every wait with a larger one.
pub open spec fn queued<T>(
    before: Seq<WaitingRequest<T>>,
    after: Seq<WaitingRequest<T>>,
    w: WaitingRequest<T>,
) -> bool {
    exists|pos: int|
        0 <= pos <= before.len() && (forall|i: int|
            0 <= i < pos ==> before[i].waiting_for.0 <= w.waiting_for.0) && (forall|i: int|
            pos <= i < before.len() ==> before[i].waiting_for.0 > w.waiting_for.0) && after
            == before.insert(pos, w)
}

/// What a report of `offset` by the follower at address `follower` does to a tracker: the
/// follower's entry is recorded; the pending waits that now have their quorum, exactly those,
/// leave the queue, smallest target first, and their signals are `woken`. A report without an
/// offset changes nothing.
pub open spec fn report_outcome<T>(
    before: Replication<T>,
    after: Replication<T>,
    follower: Seq<char>,
    offset: Option<Offset>,
    woken: Seq<T>,
) -> bool {
    &&& after.required() == before.required()
    &&& offset is None ==> woken == Seq::<T>::empty() && after.acks() == before.acks()
        && after.pending() == before.pending()
    &&& offset is Some ==> {
        let p = before.pending();
        let acks = record_ack(before.acks(), encode_utf8(follower), offset->Some_0.0);
        let j = woken.len() as int;
        &&& after.acks() == acks
        &&& j <= p.len()
        &&& woken == wake_signals(p.subrange(0, j))
        &&& after.pending() == p.subrange(j, p.len() as int)
        &&& forall|i: int|
            0 <= i < p.len() ==> (i < j <==> quorum_reached(
                acks,
                #[trigger] p[i].waiting_for.0,
                before.required(),
            ))
    }
}

/// The leader's quorum tracker: what each follower acknowledged, and the writes waiting for
/// enough of them.
pub struct Replication<T> {
    waiting_requests: Vec<WaitingRequest<T>>,
    required_replicas: usize,
    follower_max_offsets: Vec<(Vec<u8>, Offset)>,
}

impl<T> Replication<T> {
    /// The pending waits, smallest target first.
    pub closed spec fn pending(&self) -> Seq<WaitingRequest<T>> {
        self.waiting_requests@
    }

    /// The acknowledgement table.
    pub closed spec fn acks(&self) -> Seq<Ack> {
        self.follower_max_offsets@.map_values(|e: (Vec<u8>, Offset)| (e.0@, e.1.0))
    }

    /// Number of followers that must reach an offset before a wait for it is woken.
    pub closed spec fn required(&self) -> usize {
        self.required_replicas
    }

    pub open spec fn wf(&self) -> bool {
        &&& ordered(self.pending())
        &&& distinct_identities(self.acks())
    }

    pub fn new(required_replicas: usize) -> (r: Replication<T>)
        ensures
            r.wf(),
            r.required() == required_replicas,
            r.pending() == Seq::<WaitingRequest<T>>::empty(),
            r.acks() == Seq::<Ack>::empty(),
    {
        let r = Replication {
            waiting_requests: Vec::new(),
            required_replicas,
            follower_max_offsets: Vec::new(),
        };
        assert(r.acks() =~= Seq::<Ack>::empty());
        r
    }

    pub fn required_replicas(&self) -> (r: usize)
        ensures
            r == self.required(),
    {
        self.required_replicas
    }

    /// Queues a wait for `waiting_for`, after the waits with a target no larger.
    pub fn register_wait(&mut self, waiting_for: Offset, wake_tx: T)
        requires
            old(self).wf(),
        ensures
            final(self).wf(),
            final(self).required() == old(self).required(),
            final(self).acks() == old(self).acks(),
            queued(old(self).pending(), final(self).pending(), WaitingRequest { waiting_for, wake_tx }),
    {
        let mut pos: usize = 0;
        while pos < self.waiting_requests.len() && self.waiting_requests[pos].waiting_for.0
            <= waiting_for.0
            invariant
                pos <= self.waiting_requests@.len(),
                self.waiting_requests@ == old(self).waiting_requests@,
                forall|i: int| 0 <= i < pos ==> self.waiting_requests@[i].waiting_for.0 <= waiting_for.0,
            decreases self.waiting_requests@.len() - pos,
        {
            pos = pos + 1;
        }
        let ghost p = self.waiting_requests@;
        proof {
            assert forall|i: int| pos <= i < p.len() implies p[i].waiting_for.0 > waiting_for.0 by {
                assert(ordered(p));
                assert(p[pos as int].waiting_for.0 <= p[i].waiting_for.0);
            }
        }
        self.waiting_requests.insert(pos, WaitingRequest { waiting_for, wake_tx });
        assert(self.acks() == old(self).acks());
        proof {
            let q = self.waiting_requests@;
            assert(q =~= p.insert(pos as int, WaitingRequest { waiting_for, wake_tx }));
            assert forall|i: int, j: int| 0 <= i <= j < q.len() implies q[i].waiting_for.0
                <= q[j].waiting_for.0 by {
                assert(ordered(p));
            }
        }
    }

    /// The index of `id`'s entry in the acknowledgement table.
    fn find_follower(&self, id: &[u8]) -> (r: Option<usize>)
        ensures
            match r {
                Some(i) => i < self.acks().len() && self.acks()[i as int].0 == id@,
                None => forall|k: int| 0 <= k < self.acks().len() ==> self.acks()[k].0 != id@,
            },
    {
        let mut i: usize = 0;
        while i < self.follower_max_offsets.len()
            invariant
                i <= self.acks().len(),
                self.acks().len() == self.follower_max_offsets@.len(),
                forall|k: int| 0 <= k < i ==> self.acks()[k].0 != id@,
            decreases self.follower_max_offsets@.len() - i,
        {
            if bytes_eq(self.follower_max_offsets[i].0.as_slice(), id) {
                return Some(i);
            }
            i = i + 1;
        }
        None
    }

    /// Number of followers that reported an offset of at least `o`.
    fn followers_beyond(&self, o: Offset) -> (r: usize)
        ensures
            r == count_at_least(self.acks(), o.0),
    {
        let mut count: usize = 0;
        let mut i: usize = 0;
        while i < self.follower_max_offsets.len()
            invariant
                i <= self.acks().len(),
                self.acks().len() == self.follower_max_offsets@.len(),
                count <= i,
                count == count_at_least(self.acks().subrange(0, i as int), o.0),
            decreases self.follower_max_offsets@.len() - i,
        {
            let ghost prefix = self.acks().subrange(0, i + 1);
            assert(prefix.drop_last() =~= self.acks().subrange(0, i as int));
            if self.follower_max_offsets[i].1.0 >= o.0 {
                count = count + 1;
            }
            i = i + 1;
        }
        assert(self.acks().subrange(0, i as int) =~= self.acks());
        count
    }

    /// Records that `follower` reached `offset`, then wakes, smallest target first, every
    /// pending wait that now has its quorum; returns their signals in that order. A report
    /// without an offset changes nothing.
    pub fn update_follower_max_offset(&mut self, follower: String, offset: Option<Offset>) -> (r:
        Vec<T>)
        requires
            old(self).wf(),
        ensures
            final(self).wf(),
            report_outcome(*old(self), *final(self), follower@, offset, r@),
    {
        let offset = match offset {
            Some(o) => o,
            None => {
                return Vec::new();
            },
        };
        let id = slice_to_vec(follower.as_str().as_bytes());
        let ghost old_acks = self.acks();
        // Replace the follower's entry, or add one.
        match self.find_follower(id.as_slice()) {
            Some(i) => {
                self.follower_max_offsets.set(i, (id, offset));
                proof {
                    let c = choose|c: int| 0 <= c < old_acks.len() && old_acks[c].0 == id@;
                    assert(c == i);
                    assert(self.acks() =~= old_acks.update(i as int, (id@, offset.0)));
                }
            },
            None => {
                self.follower_max_offsets.push((id, offset));
                assert(self.acks() =~= old_acks.push((id@, offset.0)));
            },
        }
        let ghost acks = self.acks();
        assert(acks == record_ack(old_acks, id@, offset.0));
        assert(distinct_identities(acks)) by {
            assert(distinct_identities(old_acks));
        }
        // Wake the waits that have their quorum, smallest target first.
        let ghost p = self.waiting_requests@;
        let mut woken: Vec<T> = Vec::new();
        while self.waiting_requests.len() > 0
            invariant
                self.acks() == acks,
                self.required_replicas == old(self).required_replicas,
                distinct_identities(acks),
                ordered(p),
                woken@.len() <= p.len(),
                self.waiting_requests@ == p.subrange(woken@.len() as int, p.len() as int),
                woken@ == wake_signals(p.subrange(0, woken@.len() as int)),
                forall|i: int|
                    0 <= i < woken@.len() ==> quorum_reached(
                        acks,
                        #[trigger] p[i].waiting_for.0,
                        self.required_replicas,
                    ),
            ensures
                self.waiting_requests@.len() > 0 ==> !quorum_reached(
                    acks,
                    self.waiting_requests@[0].waiting_for.0,
                    self.required_replicas,
                ),
            decreases self.waiting_requests@.len(),
        {
            let target = self.waiting_requests[0].waiting_for;
            let beyond = self.followers_beyond(target);
            if beyond >= self.required_replicas {
                let req = self.waiting_requests.remove(0);
                let ghost j = woken@.len() as int;
                woken.push(req.wake_tx);
                proof {
                    assert(self.waiting_requests@ =~= p.subrange(j + 1, p.len() as int));
                    assert(woken@ =~= wake_signals(p.subrange(0, j + 1)));
                }
            } else {
                break;
            }
        }
        proof {
            let j = woken@.len() as int;
            assert forall|i: int| 0 <= i < p.len() implies (i < j <==> quorum_reached(
                acks,
                #[trigger] p[i].waiting_for.0,
                old(self).required(),
            )) by {
                if i >= j {
                    lemma_smaller_target_easier(
                        acks,
                        p[j].waiting_for.0,
                        p[i].waiting_for.0,
                        old(self).required(),
                    );
                }
            }
            let q = self.waiting_requests@;
            assert forall|a: int, b: int| 0 <= a <= b < q.len() implies q[a].waiting_for.0
                <= q[b].waiting_for.0 by {
                assert(q[a] == p[a + j] && q[b] == p[b + j]);
            }
        }
        woken
    }
}

} // verus!
