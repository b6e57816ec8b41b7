//! Allocation of channel ids within `[1, channel_max]`.
use vstd::prelude::*;

verus! {

/// The largest usable channel id for a negotiated `channel_max`, where `0`
/// stands for no limit.
pub open spec fn id_limit(channel_max: u16) -> u16 {
    if channel_max == 0 {
        u16::MAX
    } else {
        channel_max
    }
}

/// Hands out channel ids, lowest free one first, and takes them back.
pub struct ChannelIdRepository {
    limit: u16,
    /// `used[id]` tells whether `id` is held; index 0 is never used.
    used: Vec<bool>,
}

impl ChannelIdRepository {
    /// The largest id that this repository hands out.
    pub closed spec fn max_id(&self) -> u16 {
        self.limit
    }

    pub closed spec fn wf(&self) -> bool {
        &&& self.limit >= 1
        &&& self.used@.len() == self.limit + 1
        &&& !self.used@[0]
    }

    /// The ids currently held.
    pub closed spec fn held(&self) -> Set<u16> {
        Set::new(|id: u16| 1 <= id <= self.limit && self.used@[id as int])
    }

    pub open spec fn in_range(&self, id: u16) -> bool {
        1 <= id <= self.max_id()
    }

    /// Every held id is in range.
    pub proof fn lemma_held_in_range(&self)
        requires
            self.wf(),
        ensures
            forall|id: u16| #[trigger] self.held().contains(id) ==> self.in_range(id),
    {
    }

    pub fn new(channel_max: u16) -> (r: Self)
        ensures
            r.wf(),
            r.max_id() == id_limit(channel_max),
            r.held() == Set::<u16>::empty(),
    {
        let limit: u16 = if channel_max == 0 {
            u16::MAX
        } else {
            channel_max
        };
        let mut used: Vec<bool> = Vec::new();
        let mut i: u32 = 0;
        while i <= limit as u32
            invariant
                i <= limit as u32 + 1,
                used@.len() == i,
                forall|k: int| 0 <= k < i ==> !used@[k],
            decreases limit as u32 + 1 - i,
        {
            used.push(false);
            i = i + 1;
        }
        let r = ChannelIdRepository { limit, used };
        assert(r.held() =~= Set::<u16>::empty());
        r
    }

    /// Takes the lowest free id in range; `None` when every id is held.
    pub fn allocate(&mut self) -> (r: Option<u16>)
        requires
            old(self).wf(),
        ensures
            final(self).wf(),
            final(self).max_id() == old(self).max_id(),
            match r {
                Some(id) => {
                    &&& old(self).in_range(id)
                    &&& !old(self).held().contains(id)
                    &&& forall|j: u16| 1 <= j < id ==> old(self).held().contains(j)
                    &&& final(self).held() == old(self).held().insert(id)
                },
                None => {
                    &&& forall|j: u16| old(self).in_range(j) ==> old(self).held().contains(j)
                    &&& final(self).held() == old(self).held()
                },
            },
    {
        let mut id: u16 = 1;
        loop
            invariant
                self.wf(),
                *self == *old(self),
                1 <= id <= self.limit,
                forall|j: u16| 1 <= j < id ==> self.held().contains(j),
            decreases self.limit - id,
        {
            if !self.used[id as usize] {
                self.used[id as usize] = true;
                assert(self.held() =~= old(self).held().insert(id));
                return Some(id);
            }
            assert(self.held().contains(id));
            if id == self.limit {
                return None;
            }
            id = id + 1;
        }
    }

    /// Holds `id`, if it is in range and free.
    pub fn reserve(&mut self, id: &u16) -> (r: bool)
        requires
            old(self).wf(),
        ensures
            final(self).wf(),
            final(self).max_id() == old(self).max_id(),
            r == (old(self).in_range(*id) && !old(self).held().contains(*id)),
            final(self).held() == (if r {
                old(self).held().insert(*id)
            } else {
                old(self).held()
            }),
    {
        let id = *id;
        if id < 1 || id > self.limit || self.used[id as usize] {
            return false;
        }
        self.used[id as usize] = true;
        assert(self.held() =~= old(self).held().insert(id));
        true
    }

    /// Gives `id` back; `false` when it was not held.
    pub fn release(&mut self, id: &u16) -> (r: bool)
        requires
            old(self).wf(),
        ensures
            final(self).wf(),
            final(self).max_id() == old(self).max_id(),
            r == old(self).held().contains(*id),
            final(self).held() == old(self).held().remove(*id),
    {
        let id = *id;
        if id < 1 || id > self.limit || !self.used[id as usize] {
            assert(self.held() =~= old(self).held().remove(id));
            return false;
        }
        self.used[id as usize] = false;
        assert(self.held() =~= old(self).held().remove(id));
        true
    }
}

/// Channel id reuse: take the ids `held` of a repository; close the channels
/// of `closed`; then open channels under the ids `opened`, fewer than were
/// closed. An id in range is still free, so (by `allocate`'s contract, which
/// fails only when every id in range is held) the next allocation succeeds:
/// after `n` closes, `n` allocations succeed.
pub proof fn lemma_closed_ids_reusable(
    repo: ChannelIdRepository,
    closed: Set<u16>,
    opened: Set<u16>,
)
    requires
        repo.wf(),
        closed <= repo.held(),
        closed.finite(),
        opened.finite(),
        opened.len() < closed.len(),
    ensures
        exists|j: u16|
            repo.in_range(j) && !(repo.held().difference(closed).union(opened)).contains(j),
{
    if closed <= opened {
        vstd::set_lib::lemma_len_subset(closed, opened);
    }
    let j = choose|j: u16| closed.contains(j) && !opened.contains(j);
    assert(repo.in_range(j));
    assert(!(repo.held().difference(closed).union(opened)).contains(j));
}

} // verus!
