//! A pool of channels on one session.
use std::collections::VecDeque;
use vstd::prelude::*;
use vstd::string::*;

use crate::text::cat2;

verus! {

/// Why no channel was handed out.
#[derive(Debug)]
pub enum AcquireError<E> {
    /// All channels are in use.
    NoCapacity,
    /// A new channel could not be opened.
    Create(E),
}

impl AcquireError<String> {
    /// The message for the user.
    pub fn message(&self) -> (r: String)
        ensures
            r@ == match self {
                AcquireError::NoCapacity => "no free SFTP channel"@,
                AcquireError::Create(e) => "failed to create SFTP channel: "@ + e@,
            },
    {
        match self {
            AcquireError::NoCapacity => "no free SFTP channel".to_owned(),
            AcquireError::Create(e) => cat2("failed to create SFTP channel: ", e.as_str()),
        }
    }
}

/// A channel that was handed out: its place in the pool, and whether it was
/// opened for this.
pub struct SftpChannelGuard<C> {
    idx: usize,
    channel: C,
    fresh: bool,
}

impl<C> SftpChannelGuard<C> {
    pub closed spec fn place(self) -> int {
        self.idx as int
    }

    pub closed spec fn held(self) -> C {
        self.channel
    }

    pub closed spec fn is_fresh(self) -> bool {
        self.fresh
    }

    /// The channel.
    pub fn adapter(&self) -> (r: &C)
        ensures
            *r == self.held(),
    {
        &self.channel
    }

    /// Whether the channel was opened for this.
    pub fn was_fresh(&self) -> (r: bool)
        ensures
            r == self.is_fresh(),
    {
        self.fresh
    }
}

/// Channels on one session, opened when they are first needed and kept for
/// later. A place that is free waits in a queue.
pub struct MultiChannelSftpManager<C> {
    channels: Vec<Option<C>>,
    free: VecDeque<usize>,
}

impl<C> MultiChannelSftpManager<C> {
    /// The places, with the channels that are kept there.
    pub closed spec fn places(self) -> Seq<Option<C>> {
        self.channels@
    }

    /// The free places, the next one first.
    pub closed spec fn queue(self) -> Seq<usize> {
        self.free@
    }

    /// There is a place, a free place is one of the places, none is free twice,
    /// and a channel that is kept lies in a free place.
    pub open spec fn wf(self) -> bool {
        &&& 0 < self.places().len() <= usize::MAX
        &&& forall|i: int|
            0 <= i < self.queue().len() ==> (#[trigger] self.queue()[i]) < self.places().len()
        &&& self.queue().no_duplicates()
        &&& forall|p: int|
            0 <= p < self.places().len() && (#[trigger] self.places()[p]) is Some
                ==> self.queue().contains(p as usize)
    }

    /// Whether a place is in use.
    pub open spec fn in_use(self, p: int) -> bool {
        0 <= p < self.places().len() && !self.queue().contains(p as usize)
    }

    /// A pool with this many places, but at least one.
    pub fn new(max_channels: usize) -> (r: Self)
        ensures
            r.wf(),
            r.places().len() == if max_channels == 0 {
                1
            } else {
                max_channels as nat
            },
            r.queue() == Seq::new(r.places().len(), |i: int| i as usize),
            forall|p: int| 0 <= p < r.places().len() ==> (#[trigger] r.places()[p]) is None,
    {
        let capacity: usize = if max_channels == 0 {
            1
        } else {
            max_channels
        };
        let mut channels: Vec<Option<C>> = Vec::new();
        let mut free: VecDeque<usize> = VecDeque::new();
        let mut i: usize = 0;
        while i < capacity
            invariant
                i <= capacity,
                channels.len() == i,
                free@.len() == i,
                forall|p: int| 0 <= p < i ==> (#[trigger] channels@[p]) is None,
                forall|p: int| 0 <= p < i ==> (#[trigger] free@[p]) == p,
            decreases capacity - i,
        {
            channels.push(None);
            free.push_back(i);
            i = i + 1;
        }
        let r = MultiChannelSftpManager { channels, free };
        proof {
            assert(r.queue() =~= Seq::new(r.places().len(), |i: int| i as usize));
        }
        r
    }

    /// The number of places.
    pub fn capacity(&self) -> (r: usize)
        ensures
            r == self.places().len(),
    {
        self.channels.len()
    }

    /// The number of free places.
    pub fn available(&self) -> (r: usize)
        ensures
            r == self.queue().len(),
    {
        self.free.len()
    }

    /// Forgets all channels, and frees all places.
    pub fn reset(&mut self)
        requires
            old(self).wf(),
        ensures
            final(self).wf(),
            final(self).places().len() == old(self).places().len(),
            final(self).queue() == Seq::new(old(self).places().len(), |i: int| i as usize),
            forall|p: int|
                0 <= p < final(self).places().len() ==> (#[trigger] final(self).places()[p])
                    is None,
    {
        let n = self.channels.len();
        let fresh = MultiChannelSftpManager::new(n);
        *self = fresh;
    }

    /// Hands a channel out: one that is kept, or a new one from `create`. Where
    /// no place is free, or none can be opened, the pool stays as it is.
    pub fn acquire<E, F: FnOnce() -> Result<C, E>>(&mut self, create: F) -> (r: Result<
        SftpChannelGuard<C>,
        AcquireError<E>,
    >)
        requires
            old(self).wf(),
            create.requires(()),
        ensures
            final(self).wf(),
            final(self).places().len() == old(self).places().len(),
            match r {
                Ok(g) => {
                    let p = g.place();
                    &&& old(self).queue().len() > 0
                    &&& p == old(self).queue()[0]
                    &&& final(self).queue() == old(self).queue().drop_first()
                    &&& final(self).places() == old(self).places().update(p, None)
                    &&& final(self).in_use(p)
                    &&& match old(self).places()[p] {
                        Some(c) => g.held() == c && !g.is_fresh(),
                        None => g.is_fresh() && create.ensures(
                            (),
                            Ok::<C, E>(g.held()),
                        ),
                    }
                },
                Err(AcquireError::NoCapacity) => {
                    &&& old(self).queue().len() == 0
                    &&& final(self).queue() == old(self).queue()
                    &&& final(self).places() == old(self).places()
                },
                Err(AcquireError::Create(e)) => {
                    &&& old(self).queue().len() > 0
                    &&& old(self).places()[old(self).queue()[0] as int] is None
                    &&& create.ensures((), Err::<C, E>(e))
                    &&& final(self).queue() == old(self).queue()
                    &&& final(self).places() == old(self).places()
                },
            },
    {
        let ghost before = *self;
        match self.free.pop_front() {
            None => Err(AcquireError::NoCapacity),
            Some(idx) => {
                proof {
                    assert(before.queue()[0] == idx);
                    assert(self.free@ =~= before.queue().drop_first());
                    assert forall|i: int| 0 <= i < self.free@.len() implies (
                    #[trigger] self.free@[i]) == before.queue()[i + 1] by {}
                }
                let kept = self.take_channel(idx);
                match kept {
                    Some(channel) => {
                        proof {
                            self.lemma_taken(before, idx);
                        }
                        Ok(SftpChannelGuard { idx, channel, fresh: false })
                    },
                    None => {
                        match create() {
                            Ok(channel) => {
                                proof {
                                    self.lemma_taken(before, idx);
                                }
                                Ok(SftpChannelGuard { idx, channel, fresh: true })
                            },
                            Err(e) => {
                                self.free.push_front(idx);
                                proof {
                                    assert(self.queue() =~= before.queue());
                                    assert(self.places() =~= before.places());
                                }
                                Err(AcquireError::Create(e))
                            },
                        }
                    },
                }
            },
        }
    }

    proof fn lemma_taken(self, before: Self, idx: usize)
        requires
            before.wf(),
            before.queue().len() > 0,
            before.queue()[0] == idx,
            self.queue() == before.queue().drop_first(),
            self.places() == before.places().update(idx as int, None),
        ensures
            self.wf(),
            self.in_use(idx as int),
    {
        let q = before.queue();
        assert forall|i: int| 0 <= i < self.queue().len() implies (#[trigger] self.queue()[i])
            < self.places().len() by {
            assert(self.queue()[i] == q[i + 1]);
        }
        assert(self.queue().no_duplicates()) by {
            assert forall|i: int, j: int|
                0 <= i < self.queue().len() && 0 <= j < self.queue().len() && i != j implies (
            self.queue()[i] != self.queue()[j]) by {
                assert(self.queue()[i] == q[i + 1]);
                assert(self.queue()[j] == q[j + 1]);
            }
        }
        assert forall|p: int|
            0 <= p < self.places().len() && (#[trigger] self.places()[p]) is Some implies (
        self.queue().contains(p as usize)) by {
            assert(before.places()[p] is Some);
            assert(q.contains(p as usize));
            let i = q.index_of(p as usize);
            assert(q[i] == p as usize);
            assert(i > 0);
            assert(self.queue()[i - 1] == p as usize);
        }
        if self.queue().contains(idx) {
            let i = self.queue().index_of(idx);
            assert(q[i + 1] == idx);
            assert(q[0] == idx);
        }
    }

    fn take_channel(&mut self, idx: usize) -> (r: Option<C>)
        requires
            idx < old(self).channels.len(),
        ensures
            r == old(self).channels@[idx as int],
            final(self).channels@ == old(self).channels@.update(idx as int, None),
            final(self).free == old(self).free,
    {
        let mut slot: Option<C> = None;
        std::mem::swap(&mut slot, &mut self.channels[idx]);
        slot
    }

    /// Takes a channel back, for later use.
    pub fn release(&mut self, guard: SftpChannelGuard<C>)
        requires
            old(self).wf(),
            old(self).in_use(guard.place()),
        ensures
            final(self).wf(),
            final(self).places() == old(self).places().update(
                guard.place(),
                Some(guard.held()),
            ),
            final(self).queue() == old(self).queue().push(guard.place() as usize),
    {
        let ghost before = *self;
        let idx = guard.idx;
        self.channels.set(idx, Some(guard.channel));
        self.free.push_back(idx);
        proof {
            let q = before.queue();
            let n = self.queue();
            assert(n =~= q.push(idx));
            assert forall|i: int| 0 <= i < n.len() implies (#[trigger] n[i])
                < self.places().len() by {
                if i < q.len() {
                    assert(n[i] == q[i]);
                }
            }
            assert(n.no_duplicates()) by {
                assert forall|i: int, j: int|
                    0 <= i < n.len() && 0 <= j < n.len() && i != j implies n[i] != n[j] by {
                    if i < q.len() && j < q.len() {
                        assert(n[i] == q[i] && n[j] == q[j]);
                    } else if i < q.len() {
                        assert(q.contains(q[i]));
                    } else if j < q.len() {
                        assert(q.contains(q[j]));
                    }
                }
            }
            assert forall|p: int|
                0 <= p < self.places().len() && (#[trigger] self.places()[p]) is Some implies (
            n.contains(p as usize)) by {
                if p == idx {
                    assert(n[q.len() as int] == idx);
                } else {
                    assert(before.places()[p] is Some);
                    let i = q.index_of(p as usize);
                    assert(n[i] == p as usize);
                }
            }
        }
    }
}

} // verus!
