//! The table of open channels: for each, its pending responders and its
//! optional content dispatcher.
use std::collections::BTreeMap;
use vstd::prelude::*;

use crate::channel_id_repo::{lemma_closed_ids_reusable, ChannelIdRepository};

verus! {

broadcast use vstd::std_specs::btree::group_btree_axioms;

/// `(class_id, method_id)` of a method.
#[derive(Debug, Clone, Copy, PartialEq, Eq)]
pub struct MethodHeader {
    pub class_id: u16,
    pub method_id: u16,
}

pub open spec fn header_key(class_id: u16, method_id: u16) -> u32 {
    (class_id as u32 * 0x1_0000 + method_id as u32) as u32
}

impl MethodHeader {
    pub open spec fn spec_key(&self) -> u32 {
        header_key(self.class_id, self.method_id)
    }

    /// One number per header, under which its responder is filed.
    pub fn key(&self) -> (r: u32)
        ensures
            r == self.spec_key(),
    {
        self.class_id as u32 * 0x1_0000 + self.method_id as u32
    }
}

/// What one open channel holds: `R` is a single-shot reply sink, `D` the
/// handle of the channel's content dispatcher.
pub struct ChannelResource<R, D> {
    /// Pending replies, by `header_key` of the expected method.
    pub responders: BTreeMap<u32, R>,
    pub dispatcher: Option<D>,
}

impl<R, D> ChannelResource<R, D> {
    pub fn new(dispatcher: Option<D>) -> (r: Self)
        ensures
            r.responders@ == Map::<u32, R>::empty(),
            r.dispatcher == dispatcher,
    {
        ChannelResource { responders: BTreeMap::new(), dispatcher }
    }
}

pub struct ChannelManager<R, D> {
    channel_id_repo: ChannelIdRepository,
    resource: BTreeMap<u16, ChannelResource<R, D>>,
}

impl<R, D> ChannelManager<R, D> {
    /// The open channels, by id.
    pub closed spec fn channels(&self) -> Map<u16, ChannelResource<R, D>> {
        self.resource@
    }

    pub closed spec fn max_id(&self) -> u16 {
        self.channel_id_repo.max_id()
    }

    /// Channel 0 is always there; every other open channel holds its id in
    /// the repository, and every held id belongs to an open channel.
    pub closed spec fn wf(&self) -> bool {
        &&& self.channel_id_repo.wf()
        &&& self.resource@.contains_key(0)
        &&& self.channel_id_repo.held() == self.resource@.dom().remove(0)
    }

    pub open spec fn responders_of(&self, id: u16) -> Map<u32, R> {
        self.channels()[id].responders@
    }

    /// Channel 0 is open in a well-formed table, and every other open
    /// channel has an id in `[1, max_id()]`.
    pub proof fn lemma_connection_channel(&self)
        requires
            self.wf(),
        ensures
            self.channels().contains_key(0),
            forall|id: u16| #[trigger]
                self.channels().contains_key(id) ==> id == 0 || 1 <= id <= self.max_id(),
    {
        self.channel_id_repo.lemma_held_in_range();
        assert forall|id: u16| #[trigger] self.channels().contains_key(id) implies id == 0 || 1
            <= id <= self.max_id() by {
            if id != 0 {
                assert(self.channel_id_repo.held().contains(id));
            }
        }
    }

    /// A table that holds only channel 0, with `connection` as its resource.
    pub fn new(channel_max: u16, connection: ChannelResource<R, D>) -> (r: Self)
        ensures
            r.wf(),
            r.channels() == Map::<u16, ChannelResource<R, D>>::empty().insert(0, connection),
            r.max_id() == crate::channel_id_repo::id_limit(channel_max),
    {
        let mut resource = BTreeMap::new();
        resource.insert(0u16, connection);
        let r = ChannelManager { channel_id_repo: ChannelIdRepository::new(channel_max), resource };
        assert(r.channel_id_repo.held() =~= r.resource@.dom().remove(0));
        assert(r.resource@ =~= Map::<u16, ChannelResource<R, D>>::empty().insert(0, connection));
        r
    }

    /// Opens a channel under `channel_id` when given, else under the lowest
    /// free id; `None` when that id is out of range or taken, or no id is free.
    pub fn insert_resource(&mut self, channel_id: Option<u16>, resource: ChannelResource<R, D>) -> (r:
        Option<u16>)
        requires
            old(self).wf(),
        ensures
            final(self).wf(),
            final(self).max_id() == old(self).max_id(),
            match channel_id {
                Some(want) => r == (if 1 <= want <= old(self).max_id() && !old(
                    self,
                ).channels().contains_key(want) {
                    Some(want)
                } else {
                    None::<u16>
                }),
                None => match r {
                    Some(id) => {
                        &&& 1 <= id <= old(self).max_id()
                        &&& !old(self).channels().contains_key(id)
                        &&& forall|j: u16| 1 <= j < id ==> old(self).channels().contains_key(j)
                    },
                    None => forall|j: u16|
                        1 <= j <= old(self).max_id() ==> old(self).channels().contains_key(j),
                },
            },
            match r {
                Some(id) => final(self).channels() == old(self).channels().insert(id, resource),
                None => final(self).channels() == old(self).channels(),
            },
    {
        let id = match channel_id {
            Some(id) => {
                if self.channel_id_repo.reserve(&id) {
                    id
                } else {
                    return None;
                }
            },
            None => match self.channel_id_repo.allocate() {
                Some(id) => id,
                None => {
                    assert forall|j: u16| 1 <= j <= old(self).max_id() implies old(
                        self,
                    ).channels().contains_key(j) by {
                        assert(old(self).channel_id_repo.in_range(j));
                    }
                    return None;
                },
            },
        };
        self.resource.insert(id, resource);
        assert(self.channel_id_repo.held() =~= self.resource@.dom().remove(0));
        Some(id)
    }

    /// Closes channel `channel_id`: its id is freed and its resource, with
    /// every responder still in it, is handed back. Channel 0 stays.
    pub fn remove_resource(&mut self, channel_id: &u16) -> (r: Option<ChannelResource<R, D>>)
        requires
            old(self).wf(),
        ensures
            final(self).wf(),
            final(self).max_id() == old(self).max_id(),
            *channel_id == 0 ==> final(self).channels() == old(self).channels() && r.is_none(),
            *channel_id != 0 ==> final(self).channels() == old(self).channels().remove(*channel_id),
            *channel_id != 0 ==> r == (if old(self).channels().contains_key(*channel_id) {
                Some(old(self).channels()[*channel_id])
            } else {
                None
            }),
    {
        if *channel_id == 0 {
            return None;
        }
        let _released = self.channel_id_repo.release(channel_id);
        let r = self.resource.remove(channel_id);
        assert(self.channel_id_repo.held() =~= self.resource@.dom().remove(0));
        r
    }

    /// Files `responder` under `method_header` on channel `channel_id`, and
    /// hands back the one it replaces. On a channel that is not open nothing
    /// is filed and `None` comes back.
    pub fn insert_responder(&mut self, channel_id: &u16, method_header: &MethodHeader, responder: R) -> (r:
        Option<R>)
        requires
            old(self).wf(),
        ensures
            final(self).wf(),
            final(self).max_id() == old(self).max_id(),
            final(self).channels().dom() == old(self).channels().dom(),
            forall|id: u16| #[trigger]
                final(self).channels().contains_key(id) && id != *channel_id
                    ==> final(self).channels()[id] == old(self).channels()[id],
            old(self).channels().contains_key(*channel_id) ==> {
                let before = old(self).responders_of(*channel_id);
                let k = method_header.spec_key();
                &&& final(self).responders_of(*channel_id) == before.insert(k, responder)
                &&& final(self).channels()[*channel_id].dispatcher == old(
                    self,
                ).channels()[*channel_id].dispatcher
                &&& r == (if before.contains_key(k) {
                    Some(before[k])
                } else {
                    None
                })
            },
            !old(self).channels().contains_key(*channel_id) ==> r.is_none(),
    {
        match self.resource.remove(channel_id) {
            Some(mut res) => {
                let r = res.responders.insert(method_header.key(), responder);
                self.resource.insert(*channel_id, res);
                assert(self.resource@ =~= old(self).resource@.insert(*channel_id, res));
                assert(self.channel_id_repo.held() =~= self.resource@.dom().remove(0));
                r
            },
            None => {
                assert(self.resource@ =~= old(self).resource@);
                None
            },
        }
    }

    /// Takes out the responder filed under `method_header` on channel
    /// `channel_id`, if there is one.
    pub fn remove_responder(&mut self, channel_id: &u16, method_header: &MethodHeader) -> (r: Option<R>)
        requires
            old(self).wf(),
        ensures
            final(self).wf(),
            final(self).max_id() == old(self).max_id(),
            final(self).channels().dom() == old(self).channels().dom(),
            forall|id: u16| #[trigger]
                final(self).channels().contains_key(id) && id != *channel_id
                    ==> final(self).channels()[id] == old(self).channels()[id],
            old(self).channels().contains_key(*channel_id) ==> {
                let before = old(self).responders_of(*channel_id);
                let k = method_header.spec_key();
                &&& final(self).responders_of(*channel_id) == before.remove(k)
                &&& final(self).channels()[*channel_id].dispatcher == old(
                    self,
                ).channels()[*channel_id].dispatcher
                &&& r == (if before.contains_key(k) {
                    Some(before[k])
                } else {
                    None
                })
            },
            !old(self).channels().contains_key(*channel_id) ==> r.is_none(),
            r.is_none() ==> final(self).channels() == old(self).channels(),
    {
        let key = method_header.key();
        let filed = match self.resource.get(channel_id) {
            Some(res) => res.responders.contains_key(&key),
            None => false,
        };
        if !filed {
            return None;
        }
        match self.resource.remove(channel_id) {
            Some(mut res) => {
                let r = res.responders.remove(&key);
                self.resource.insert(*channel_id, res);
                assert(self.resource@ =~= old(self).resource@.insert(*channel_id, res));
                assert(self.channel_id_repo.held() =~= self.resource@.dom().remove(0));
                r
            },
            None => {
                assert(self.resource@ =~= old(self).resource@);
                None
            },
        }
    }

    /// The dispatcher of channel `channel_id`, if it is open and has one.
    pub fn get_dispatcher(&self, channel_id: &u16) -> (r: Option<&D>)
        ensures
            r == (if self.channels().contains_key(*channel_id) {
                match self.channels()[*channel_id].dispatcher {
                    Some(d) => Some(&d),
                    None => None,
                }
            } else {
                None
            }),
    {
        match self.resource.get(channel_id) {
            Some(res) => res.dispatcher.as_ref(),
            None => None,
        }
    }
}

/// No id leaks across open and close: in a well-formed table, close the
/// channels `closed` (open, other than channel 0), then open channels under
/// the ids `opened`, fewer than were closed. An id in `[1, max_id()]` is
/// still free, so the next `insert_resource(None, ..)` succeeds (its
/// contract fails only when every id in range is open). Open channels are
/// the keys of a map, so no two share an id.
pub proof fn lemma_no_id_leak<R, D>(m: ChannelManager<R, D>, closed: Set<u16>, opened: Set<u16>)
    requires
        m.wf(),
        closed <= m.channels().dom(),
        !closed.contains(0),
        closed.finite(),
        opened.finite(),
        opened.len() < closed.len(),
    ensures
        exists|j: u16|
            1 <= j <= m.max_id() && !(m.channels().dom().difference(closed).union(
                opened,
            )).contains(j),
{
    lemma_closed_ids_reusable(m.channel_id_repo, closed, opened);
    let j = choose|j: u16|
        m.channel_id_repo.in_range(j) && !(m.channel_id_repo.held().difference(closed).union(
            opened,
        )).contains(j);
    assert(!(m.channels().dom().difference(closed).union(opened)).contains(j));
}

} // verus!
