//! Negotiated connection parameters and heartbeat timing.
use vstd::prelude::*;

use crate::content::FRAME_MIN_SIZE;
use crate::error::ConnectionError;
use crate::frame::{RawFrame, FRAME_HEARTBEAT};

verus! {

/// The agreed value of a limit, where `0` stands for no limit on that side.
pub open spec fn agreed(server: int, client: int) -> int {
    if server == 0 {
        client
    } else if client == 0 {
        server
    } else if server < client {
        server
    } else {
        client
    }
}

pub fn negotiate_u16(server: u16, client: u16) -> (r: u16)
    ensures
        r == agreed(server as int, client as int),
{
    if server == 0 {
        client
    } else if client == 0 {
        server
    } else if server < client {
        server
    } else {
        client
    }
}

pub fn negotiate_u32(server: u32, client: u32) -> (r: u32)
    ensures
        r == agreed(server as int, client as int),
{
    if server == 0 {
        client
    } else if client == 0 {
        server
    } else if server < client {
        server
    } else {
        client
    }
}

/// What the Tune / TuneOk exchange settles.
#[derive(Debug, Clone, Copy, PartialEq, Eq)]
pub struct TuneParams {
    pub channel_max: u16,
    pub frame_max: u32,
    /// Seconds; `0` turns heartbeats off.
    pub heartbeat: u16,
}

/// Why the tune exchange failed.
#[derive(Debug, Clone, Copy, PartialEq, Eq)]
pub enum TuneError {
    /// The agreed `frame_max` is below the protocol minimum.
    FrameMaxTooSmall(u32),
}

/// Takes, for each parameter, the smaller of the two proposals, `0` counting
/// as no limit; an agreed `frame_max` under the protocol minimum is refused.
pub fn negotiate(server: TuneParams, client: TuneParams) -> (r: Result<TuneParams, TuneError>)
    ensures
        ({
            let fm = agreed(server.frame_max as int, client.frame_max as int);
            if fm != 0 && fm < FRAME_MIN_SIZE {
                r == Err::<TuneParams, TuneError>(TuneError::FrameMaxTooSmall(fm as u32))
            } else {
                r == Ok::<TuneParams, TuneError>(
                    TuneParams {
                        channel_max: agreed(server.channel_max as int, client.channel_max as int)
                            as u16,
                        frame_max: fm as u32,
                        heartbeat: agreed(server.heartbeat as int, client.heartbeat as int) as u16,
                    },
                )
            }
        }),
{
    let frame_max = negotiate_u32(server.frame_max, client.frame_max);
    if frame_max != 0 && frame_max < FRAME_MIN_SIZE {
        return Err(TuneError::FrameMaxTooSmall(frame_max));
    }
    Ok(
        TuneParams {
            channel_max: negotiate_u16(server.channel_max, client.channel_max),
            frame_max,
            heartbeat: negotiate_u16(server.heartbeat, client.heartbeat),
        },
    )
}

/// The heartbeat frame: type 8, channel 0, empty payload.
pub fn heartbeat_frame() -> (r: RawFrame)
    ensures
        r.frame_type == FRAME_HEARTBEAT,
        r.channel == 0,
        r.payload@.len() == 0,
{
    RawFrame { frame_type: FRAME_HEARTBEAT, channel: 0, payload: Vec::new() }
}

/// When a frame was last sent and last received, in milliseconds of a
/// monotonic clock, under a negotiated heartbeat interval in seconds.
#[derive(Debug, Clone, Copy, PartialEq, Eq)]
pub struct HeartbeatMonitor {
    pub interval_secs: u16,
    pub last_sent_ms: u64,
    pub last_received_ms: u64,
}

/// Milliseconds from `since` to `now`, `0` if the clock reads earlier.
pub open spec fn elapsed(since: u64, now: u64) -> int {
    if now >= since {
        now - since
    } else {
        0
    }
}

impl HeartbeatMonitor {
    pub fn new(interval_secs: u16, now_ms: u64) -> (r: Self)
        ensures
            r == (HeartbeatMonitor { interval_secs, last_sent_ms: now_ms, last_received_ms: now_ms }),
    {
        HeartbeatMonitor { interval_secs, last_sent_ms: now_ms, last_received_ms: now_ms }
    }

    pub fn on_sent(&mut self, now_ms: u64)
        ensures
            *final(self) == (HeartbeatMonitor { last_sent_ms: now_ms, ..*old(self) }),
    {
        self.last_sent_ms = now_ms;
    }

    pub fn on_received(&mut self, now_ms: u64)
        ensures
            *final(self) == (HeartbeatMonitor { last_received_ms: now_ms, ..*old(self) }),
    {
        self.last_received_ms = now_ms;
    }

    /// A heartbeat is due once nothing was sent for half the interval.
    pub fn heartbeat_due(&self, now_ms: u64) -> (r: bool)
        ensures
            r == (self.interval_secs > 0 && elapsed(self.last_sent_ms, now_ms) * 2
                >= self.interval_secs * 1000),
    {
        if self.interval_secs == 0 || now_ms < self.last_sent_ms {
            return false;
        }
        (now_ms - self.last_sent_ms) as u128 * 2 >= self.interval_secs as u128 * 1000
    }

    /// `CloseCallbackError` ("peer shutdown") once the peer counts as dead.
    pub fn check_peer(&self, now_ms: u64) -> (r: Result<(), ConnectionError>)
        ensures
            r is Err <==> (self.interval_secs > 0 && elapsed(self.last_received_ms, now_ms) > 2
                * self.interval_secs * 1000),
            r is Err ==> r->Err_0 is CloseCallbackError,
    {
        if self.peer_dead(now_ms) {
            Err(ConnectionError::CloseCallbackError)
        } else {
            Ok(())
        }
    }

    /// The peer counts as dead once nothing came from it for twice the
    /// interval.
    pub fn peer_dead(&self, now_ms: u64) -> (r: bool)
        ensures
            r == (self.interval_secs > 0 && elapsed(self.last_received_ms, now_ms)
                > 2 * self.interval_secs * 1000),
    {
        if self.interval_secs == 0 || now_ms < self.last_received_ms {
            return false;
        }
        (now_ms - self.last_received_ms) > 2 * (self.interval_secs as u64) * 1000
    }
}

} // verus!
