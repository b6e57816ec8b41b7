//! What the reader decides for each inbound frame and each management
//! command. The reader owns the channel table; the task that runs it performs
//! the action that comes back.
use vstd::prelude::*;

use crate::channel_manager::{ChannelManager, ChannelResource, MethodHeader};
use crate::frame::{Decoded, RawFrame, FRAME_BODY, FRAME_HEADER, FRAME_HEARTBEAT, FRAME_METHOD};
use crate::methods::{
    bare_method_frame, bare_method_payload, classify, close_frame, close_parsed, close_payload,
    method_kind, parse_close, payload_header, read_method_header, CloseReason, MethodKind,
    CLASS_CHANNEL, CLASS_CONNECTION, FRAME_ERROR, UNEXPECTED_FRAME,
};

verus! {

/// The Close that ends the connection after a protocol violation with
/// `reply_code`: on channel 0, the reply text empty, no offending method.
pub fn violation_close(reply_code: u16) -> (r: RawFrame)
    ensures
        r.frame_type == FRAME_METHOD,
        r.channel == 0,
        r.payload@ == close_payload(CLASS_CONNECTION, 50, reply_code, Seq::empty(), 0, 0),
{
    let reason = CloseReason { reply_code, reply_text: Vec::new(), class_id: 0, method_id: 0 };
    close_frame(0, &reason)
}

/// What the task running the reader does with a frame.
pub enum ReaderAction<R> {
    /// A heartbeat: note that the peer is alive.
    Heartbeat,
    /// Connection.Blocked or Unblocked: tell the connection callback.
    Notice,
    /// Hand the frame to the channel's dispatcher.
    Dispatch,
    /// No dispatcher on the channel: the frame is dropped.
    Discard,
    /// Hand the frame to this responder, which is no longer filed.
    Respond(R),
    /// A reply that nobody waits for: dropped.
    Unanswered,
    /// Send this frame to the server.
    Reply(RawFrame),
    /// The server closed the connection: send this CloseOk, hand the reason
    /// (`None` if the Close could not be read) to the close callback, stop.
    ServerClose(RawFrame, Option<CloseReason>),
    /// Send this frame, then stop: the server closed a channel that was not open.
    ReplyAndFail(RawFrame),
    /// A close handshake reply came with nobody waiting for it: stop.
    Fail,
    /// The server broke the protocol: close the connection with this code.
    Violation(u16),
}

pub struct ReaderState<R, D> {
    channel_manager: ChannelManager<R, D>,
    to_shutdown: bool,
}

/// Whether frames of this channel go to a dispatcher.
pub open spec fn has_dispatcher<R, D>(chs: Map<u16, ChannelResource<R, D>>, id: u16) -> bool {
    chs.contains_key(id) && chs[id].dispatcher is Some
}

pub open spec fn route_content<R>(has: bool) -> ReaderAction<R> {
    if has {
        ReaderAction::Dispatch
    } else {
        ReaderAction::Discard
    }
}

impl<R, D> ReaderState<R, D> {
    pub closed spec fn wf(&self) -> bool {
        self.channel_manager.wf()
    }

    pub closed spec fn channels(&self) -> Map<u16, ChannelResource<R, D>> {
        self.channel_manager.channels()
    }

    pub closed spec fn max_id(&self) -> u16 {
        self.channel_manager.max_id()
    }

    /// Set once the connection is to end after the current frame.
    pub closed spec fn shutting_down(&self) -> bool {
        self.to_shutdown
    }

    pub open spec fn responders_of(&self, id: u16) -> Map<u32, R> {
        self.channels()[id].responders@
    }

    /// In a well-formed reader, channel 0 is open and every other open
    /// channel has an id in `[1, max_id()]`.
    pub proof fn lemma_wf(&self)
        requires
            self.wf(),
        ensures
            self.channels().contains_key(0),
            forall|id: u16| #[trigger]
                self.channels().contains_key(id) ==> id == 0 || 1 <= id <= self.max_id(),
    {
        self.channel_manager.lemma_connection_channel();
    }

    pub fn new(channel_max: u16, connection: ChannelResource<R, D>) -> (r: Self)
        ensures
            r.wf(),
            !r.shutting_down(),
            r.channels() == Map::<u16, ChannelResource<R, D>>::empty().insert(0, connection),
            r.max_id() == crate::channel_id_repo::id_limit(channel_max),
    {
        ReaderState {
            channel_manager: ChannelManager::new(channel_max, connection),
            to_shutdown: false,
        }
    }

    pub fn to_shutdown(&self) -> (r: bool)
        ensures
            r == self.shutting_down(),
    {
        self.to_shutdown
    }

    /// The dispatcher of an open channel, if it has one.
    pub fn dispatcher(&self, channel_id: u16) -> (r: Option<&D>)
        ensures
            r == (if self.channels().contains_key(channel_id) {
                match self.channels()[channel_id].dispatcher {
                    Some(d) => Some(&d),
                    None => None,
                }
            } else {
                None
            }),
    {
        self.channel_manager.get_dispatcher(&channel_id)
    }

    /// Management command: open a channel under `channel_id`, or under the
    /// lowest free id.
    pub fn register_channel(&mut self, channel_id: Option<u16>, resource: ChannelResource<R, D>) -> (r:
        Option<u16>)
        requires
            old(self).wf(),
        ensures
            final(self).wf(),
            final(self).max_id() == old(self).max_id(),
            final(self).shutting_down() == old(self).shutting_down(),
            match channel_id {
                Some(want) => r == (if 1 <= want <= old(self).max_id() && !old(
                    self,
                ).channels().contains_key(want) {
                    Some(want)
                } else {
                    None::<u16>
                }),
                None => match r {
                    Some(id) => {
                        &&& 1 <= id <= old(self).max_id()
                        &&& !old(self).channels().contains_key(id)
                        &&& forall|j: u16| 1 <= j < id ==> old(self).channels().contains_key(j)
                    },
                    None => forall|j: u16|
                        1 <= j <= old(self).max_id() ==> old(self).channels().contains_key(j),
                },
            },
            match r {
                Some(id) => final(self).channels() == old(self).channels().insert(id, resource),
                None => final(self).channels() == old(self).channels(),
            },
    {
        self.channel_manager.insert_resource(channel_id, resource)
    }

    /// Management command: file `responder` for the reply `method_header` on
    /// channel `channel_id`, before the request goes out.
    pub fn register_responder(&mut self, channel_id: u16, method_header: MethodHeader, responder: R) -> (r:
        Option<R>)
        requires
            old(self).wf(),
        ensures
            final(self).wf(),
            final(self).max_id() == old(self).max_id(),
            final(self).shutting_down() == old(self).shutting_down(),
            final(self).channels().dom() == old(self).channels().dom(),
            forall|id: u16| #[trigger]
                final(self).channels().contains_key(id) && id != channel_id
                    ==> final(self).channels()[id] == old(self).channels()[id],
            old(self).channels().contains_key(channel_id) ==> {
                let before = old(self).responders_of(channel_id);
                let k = method_header.spec_key();
                &&& final(self).responders_of(channel_id) == before.insert(k, responder)
                &&& final(self).channels()[channel_id].dispatcher == old(
                    self,
                ).channels()[channel_id].dispatcher
                &&& r == (if before.contains_key(k) {
                    Some(before[k])
                } else {
                    None
                })
            },
            !old(self).channels().contains_key(channel_id) ==> r.is_none(),
    {
        self.channel_manager.insert_responder(&channel_id, &method_header, responder)
    }

    /// Routes one inbound frame and updates the channel table.
    pub fn handle_frame(&mut self, frame: &RawFrame) -> (r: ReaderAction<R>)
        requires
            old(self).wf(),
        ensures
            final(self).wf(),
            final(self).max_id() == old(self).max_id(),
            ({
                let ch = frame.channel;
                let chs = old(self).channels();
                let t = frame.frame_type;
                if t == FRAME_HEARTBEAT {
                    &&& r == (if ch == 0 {
                        ReaderAction::<R>::Heartbeat
                    } else {
                        ReaderAction::Violation(FRAME_ERROR)
                    })
                    &&& final(self).channels() == chs
                    &&& final(self).shutting_down() == old(self).shutting_down()
                } else if t == FRAME_HEADER || t == FRAME_BODY {
                    &&& r == route_content::<R>(has_dispatcher(chs, ch))
                    &&& final(self).channels() == chs
                    &&& final(self).shutting_down() == old(self).shutting_down()
                } else if t != FRAME_METHOD || payload_header(frame.payload@) is None {
                    &&& r == ReaderAction::<R>::Violation(FRAME_ERROR)
                    &&& final(self).channels() == chs
                    &&& final(self).shutting_down() == old(self).shutting_down()
                } else {
                    let h = payload_header(frame.payload@)->Some_0;
                    let k = h.spec_key();
                    let kind = method_kind(h.class_id, h.method_id);
                    let waiting = chs.contains_key(ch) && chs[ch].responders@.contains_key(k);
                    match kind {
                        MethodKind::Close => if ch == 0 {
                            &&& r matches ReaderAction::ServerClose(f, reason) && f.channel == 0
                                && f.frame_type == FRAME_METHOD && f.payload@
                                == bare_method_payload(CLASS_CONNECTION, 51) && close_parsed(
                                frame.payload@,
                                reason,
                            )
                            &&& final(self).channels() == chs
                            &&& final(self).shutting_down()
                        } else {
                            &&& r == ReaderAction::<R>::Violation(UNEXPECTED_FRAME)
                            &&& final(self).channels() == chs
                            &&& final(self).shutting_down() == old(self).shutting_down()
                        },
                        MethodKind::CloseOk => if ch == 0 {
                            &&& final(self).shutting_down()
                            &&& (if waiting {
                                &&& r == ReaderAction::Respond(chs[0].responders@[k])
                                &&& final(self).channels().dom() == chs.dom()
                                &&& final(self).responders_of(0) == chs[0].responders@.remove(k)
                                &&& final(self).channels()[0].dispatcher == chs[0].dispatcher
                                &&& forall|id: u16| #[trigger]
                                    chs.contains_key(id) && id != 0 ==> final(self).channels()[id]
                                        == chs[id]
                            } else {
                                &&& r == ReaderAction::<R>::Fail
                                &&& final(self).channels() == chs
                            })
                        } else {
                            &&& r == ReaderAction::<R>::Violation(UNEXPECTED_FRAME)
                            &&& final(self).channels() == chs
                            &&& final(self).shutting_down() == old(self).shutting_down()
                        },
                        MethodKind::CloseChannel => if ch == 0 {
                            &&& r == ReaderAction::<R>::Violation(UNEXPECTED_FRAME)
                            &&& final(self).channels() == chs
                            &&& final(self).shutting_down() == old(self).shutting_down()
                        } else {
                            &&& final(self).channels() == chs.remove(ch)
                            &&& final(self).shutting_down() == old(self).shutting_down()
                            &&& (if chs.contains_key(ch) {
                                r matches ReaderAction::Reply(f) && f.channel == ch
                                    && f.frame_type == FRAME_METHOD && f.payload@
                                    == bare_method_payload(CLASS_CHANNEL, 41)
                            } else {
                                r matches ReaderAction::ReplyAndFail(f) && f.channel == ch
                                    && f.frame_type == FRAME_METHOD && f.payload@
                                    == bare_method_payload(CLASS_CHANNEL, 41)
                            })
                        },
                        MethodKind::CloseChannelOk => if ch == 0 {
                            &&& r == ReaderAction::<R>::Violation(UNEXPECTED_FRAME)
                            &&& final(self).channels() == chs
                            &&& final(self).shutting_down() == old(self).shutting_down()
                        } else {
                            &&& final(self).shutting_down() == old(self).shutting_down()
                            &&& (if waiting {
                                &&& r == ReaderAction::Respond(chs[ch].responders@[k])
                                &&& final(self).channels() == chs.remove(ch)
                            } else {
                                &&& r == ReaderAction::<R>::Fail
                                &&& final(self).channels() == chs
                            })
                        },
                        MethodKind::Notice => {
                            &&& r == ReaderAction::<R>::Notice
                            &&& final(self).channels() == chs
                            &&& final(self).shutting_down() == old(self).shutting_down()
                        },
                        MethodKind::Content | MethodKind::ChannelRequest => {
                            &&& r == route_content::<R>(has_dispatcher(chs, ch))
                            &&& final(self).channels() == chs
                            &&& final(self).shutting_down() == old(self).shutting_down()
                        },
                        MethodKind::Reply => {
                            &&& final(self).shutting_down() == old(self).shutting_down()
                            &&& (if waiting {
                                &&& r == ReaderAction::Respond(chs[ch].responders@[k])
                                &&& final(self).channels().dom() == chs.dom()
                                &&& final(self).responders_of(ch) == chs[ch].responders@.remove(
                                    k,
                                )
                                &&& final(self).channels()[ch].dispatcher == chs[ch].dispatcher
                                &&& forall|id: u16| #[trigger]
                                    chs.contains_key(id) && id != ch ==> final(self).channels()[id]
                                        == chs[id]
                            } else {
                                &&& r == ReaderAction::<R>::Unanswered
                                &&& final(self).channels() == chs
                            })
                        },
                        MethodKind::Unexpected => {
                            &&& r == ReaderAction::<R>::Violation(UNEXPECTED_FRAME)
                            &&& final(self).channels() == chs
                            &&& final(self).shutting_down() == old(self).shutting_down()
                        },
                    }
                }
            }),
    {
        proof {
            self.channel_manager.lemma_connection_channel();
        }
        let ch = frame.channel;
        let t = frame.frame_type;
        if t == FRAME_HEARTBEAT {
            if ch == 0 {
                return ReaderAction::Heartbeat;
            } else {
                return ReaderAction::Violation(FRAME_ERROR);
            }
        }
        if t == FRAME_HEADER || t == FRAME_BODY {
            return self.route_to_dispatcher(ch);
        }
        if t != FRAME_METHOD {
            return ReaderAction::Violation(FRAME_ERROR);
        }
        let header = match read_method_header(&frame.payload) {
            Some(h) => h,
            None => return ReaderAction::Violation(FRAME_ERROR),
        };
        match classify(&header) {
            MethodKind::Close => {
                if ch != 0 {
                    return ReaderAction::Violation(UNEXPECTED_FRAME);
                }
                self.to_shutdown = true;
                let reason = parse_close(&frame.payload);
                ReaderAction::ServerClose(bare_method_frame(0, CLASS_CONNECTION, 51), reason)
            },
            MethodKind::CloseOk => {
                if ch != 0 {
                    return ReaderAction::Violation(UNEXPECTED_FRAME);
                }
                self.to_shutdown = true;
                match self.channel_manager.remove_responder(&ch, &header) {
                    Some(responder) => ReaderAction::Respond(responder),
                    None => ReaderAction::Fail,
                }
            },
            MethodKind::CloseChannel => {
                if ch == 0 {
                    return ReaderAction::Violation(UNEXPECTED_FRAME);
                }
                let reply = bare_method_frame(ch, CLASS_CHANNEL, 41);
                match self.channel_manager.remove_resource(&ch) {
                    Some(_resource) => ReaderAction::Reply(reply),
                    None => ReaderAction::ReplyAndFail(reply),
                }
            },
            MethodKind::CloseChannelOk => {
                if ch == 0 {
                    return ReaderAction::Violation(UNEXPECTED_FRAME);
                }
                match self.channel_manager.remove_responder(&ch, &header) {
                    Some(responder) => {
                        let _resource = self.channel_manager.remove_resource(&ch);
                        ReaderAction::Respond(responder)
                    },
                    None => ReaderAction::Fail,
                }
            },
            MethodKind::Notice => ReaderAction::Notice,
            MethodKind::Content | MethodKind::ChannelRequest => self.route_to_dispatcher(ch),
            MethodKind::Reply => match self.channel_manager.remove_responder(&ch, &header) {
                Some(responder) => ReaderAction::Respond(responder),
                None => ReaderAction::Unanswered,
            },
            MethodKind::Unexpected => ReaderAction::Violation(UNEXPECTED_FRAME),
        }
    }

    /// What one read of the frame buffer gives: nothing while the frame is
    /// incomplete; a frame error (reply code 501, connection to be closed)
    /// when the bytes are corrupt; else what `handle_frame` decides.
    pub fn handle_decoded(&mut self, decoded: &Decoded) -> (r: Option<ReaderAction<R>>)
        requires
            old(self).wf(),
        ensures
            final(self).wf(),
            match decoded {
                Decoded::Incomplete => r is None && *final(self) == *old(self),
                Decoded::Corrupted => r == Some(ReaderAction::<R>::Violation(FRAME_ERROR))
                    && *final(self) == *old(self),
                Decoded::Frame(_, _) => r is Some,
            },
    {
        match decoded {
            Decoded::Incomplete => None,
            Decoded::Corrupted => Some(ReaderAction::Violation(FRAME_ERROR)),
            Decoded::Frame(frame, _) => Some(self.handle_frame(frame)),
        }
    }

    fn route_to_dispatcher(&self, ch: u16) -> (r: ReaderAction<R>)
        ensures
            r == route_content::<R>(has_dispatcher(self.channels(), ch)),
    {
        match self.channel_manager.get_dispatcher(&ch) {
            Some(_) => ReaderAction::Dispatch,
            None => ReaderAction::Discard,
        }
    }
}

} // verus!
