//! Traffic counters and times of last activity, per direction.
//!
//! These figures decide when the server may sleep and what its diagnostics
//! show. Nothing else depends on them.

use vstd::prelude::*;

verus! {

/// A direction of traffic, seen from this side.
#[derive(Debug, Clone, Copy, PartialEq, Eq, Structural)]
pub enum NetDirection {
    In,
    Out,
}

/// One value for what was transmitted and one for what was received.
#[derive(Debug, PartialEq, Eq, Structural)]
pub struct NetContainer<T> {
    pub tx: T,
    pub rx: T,
}

impl<T: Copy> Clone for NetContainer<T> {
    fn clone(&self) -> (r: Self)
        ensures
            r == *self,
    {
        NetContainer { tx: self.tx, rx: self.rx }
    }
}

impl<T: Copy> Copy for NetContainer<T> {

}

impl<T> NetContainer<T> {
    /// The pair of `tx` and `rx`.
    pub fn new(tx: T, rx: T) -> (r: Self)
        ensures
            r.tx == tx,
            r.rx == rx,
    {
        Self { tx, rx }
    }
}

/// Milliseconds that have passed at `now` since `then`; zero where `then` is
/// not in the past.
pub open spec fn elapsed(then: u64, now: u64) -> int {
    if now >= then {
        now - then
    } else {
        0
    }
}

/// Whether activity was seen at `seen`, less than `duration` milliseconds before `now`.
pub open spec fn seen_within(seen: Option<u64>, duration: u64, now: u64) -> bool {
    seen is Some && elapsed(seen->0, now) < duration
}

/// Packets counted since the last reset and the time of the last activity,
/// each per direction.
#[derive(Debug, Clone, Copy, PartialEq, Eq, Structural)]
pub struct NetStat {
    packet_count: NetContainer<u16>,
    activity_time: NetContainer<Option<u64>>,
}

impl NetStat {
    /// Packets counted since the last reset.
    pub closed spec fn counts(&self) -> NetContainer<u16> {
        self.packet_count
    }

    /// Time of the last activity in each direction, in milliseconds.
    pub closed spec fn last_activity(&self) -> NetContainer<Option<u64>> {
        self.activity_time
    }

    /// Whether either direction saw activity less than `duration` milliseconds before `now`.
    pub open spec fn active_within(&self, duration: u64, now: u64) -> bool {
        seen_within(self.last_activity().tx, duration, now) || seen_within(
            self.last_activity().rx,
            duration,
            now,
        )
    }

    /// Statistics of a transport that has seen no traffic.
    pub fn new() -> (r: Self)
        ensures
            r.counts() == (NetContainer { tx: 0u16, rx: 0u16 }),
            r.last_activity() == (NetContainer { tx: None::<u64>, rx: None::<u64> }),
    {
        Self {
            packet_count: NetContainer::new(0, 0),
            activity_time: NetContainer::new(None, None),
        }
    }

    /// Records activity in direction `dir` at `now`.
    pub fn mark_activity(&mut self, dir: NetDirection, now: u64)
        ensures
            final(self).counts() == old(self).counts(),
            final(self).last_activity() == match dir {
                NetDirection::Out => NetContainer { tx: Some(now), rx: old(self).last_activity().rx },
                NetDirection::In => NetContainer { tx: old(self).last_activity().tx, rx: Some(now) },
            },
    {
        match dir {
            NetDirection::Out => {
                self.activity_time.tx = Some(now);
            },
            NetDirection::In => {
                self.activity_time.rx = Some(now);
            },
        }
    }

    /// Time of the last activity in each direction.
    pub fn activity_time(&self) -> (r: NetContainer<Option<u64>>)
        ensures
            r == self.last_activity(),
    {
        NetContainer::new(self.activity_time.tx, self.activity_time.rx)
    }

    /// Whether either direction saw activity less than `duration` milliseconds before `now`.
    pub fn has_activity_within(&self, duration: u64, now: u64) -> (b: bool)
        ensures
            b == self.active_within(duration, now),
    {
        if let Some(tx_in) = self.activity_time.tx {
            if now.saturating_sub(tx_in) < duration {
                return true;
            }
        }
        if let Some(rx_in) = self.activity_time.rx {
            if now.saturating_sub(rx_in) < duration {
                return true;
            }
        }
        false
    }

    /// Sets both counters back to zero.
    pub fn reset_pk_count(&mut self)
        ensures
            final(self).counts() == (NetContainer { tx: 0u16, rx: 0u16 }),
            final(self).last_activity() == old(self).last_activity(),
    {
        self.packet_count.tx = 0;
        self.packet_count.rx = 0;
    }

    /// Packets counted since the last reset.
    pub fn pk_count(&self) -> (r: NetContainer<u16>)
        ensures
            r == self.counts(),
    {
        NetContainer::new(self.packet_count.tx, self.packet_count.rx)
    }

    /// Counts one packet in direction `dir`. A counter at its maximum starts over at zero.
    pub fn inc_pk_count(&mut self, dir: NetDirection)
        ensures
            final(self).last_activity() == old(self).last_activity(),
            final(self).counts() == match dir {
                NetDirection::In => NetContainer {
                    tx: old(self).counts().tx,
                    rx: if old(self).counts().rx == u16::MAX {
                        0u16
                    } else {
                        (old(self).counts().rx + 1) as u16
                    },
                },
                NetDirection::Out => NetContainer {
                    tx: if old(self).counts().tx == u16::MAX {
                        0u16
                    } else {
                        (old(self).counts().tx + 1) as u16
                    },
                    rx: old(self).counts().rx,
                },
            },
    {
        match dir {
            NetDirection::In => {
                self.packet_count.rx = self.packet_count.rx.wrapping_add(1);
            },
            NetDirection::Out => {
                self.packet_count.tx = self.packet_count.tx.wrapping_add(1);
            },
        }
    }
}

} // verus!
