//! Synthetic, slowly drifting data so the dashboard can be demonstrated
//! without bootstrapping Tor or touching the firewall.

use rand::RngExt;
use vstd::prelude::*;

use crate::dashboard::app::{DnsInfo, KillSwitchInfo, ModuleState, Snapshot, TorInfo};
use crate::net::IpAddress;

verus! {

/// A number drawn uniformly from `lo..hi` with `rand`'s thread-local
/// generator (`RngExt::random_range`). Which number is random; `rand`
/// documents that it lies in the half-open range, and panics on an empty
/// one.
#[verifier::external_body]
fn random_in(lo: u32, hi: u32) -> (r: u32)
    requires
        lo < hi,
    ensures
        lo <= r < hi,
{
    rand::rng().random_range(lo..hi)
}

/// Every how many polls the mock reports a leak, so the danger styling
/// shows up now and then.
pub const LEAK_EVERY: u32 = 9;

pub const MOCK_EGRESS: &'static str = "uid 1000 (mock)";

pub const MOCK_PROVIDER: &'static str = "Cloudflare (1.1.1.1) [mock]";

pub const MOCK_PANIC_BANNER: &'static str = "PANIC MODE: kill switch forced ON (mock).";

pub struct MockDataSource {
    bootstrap_percent: u8,
    leak_toggle_counter: u32,
}

/// The mock kill switch is always reported enabled.
pub open spec fn mock_kill_switch(k: ModuleState<KillSwitchInfo>) -> bool {
    k matches ModuleState::Ready(info) && info.state@ == "enabled"@ && info.allowed_egress
        is Some && info.allowed_egress->0@ == MOCK_EGRESS@
}

impl MockDataSource {
    pub closed spec fn percent(&self) -> u8 {
        self.bootstrap_percent
    }

    pub closed spec fn polls(&self) -> u32 {
        self.leak_toggle_counter
    }

    #[verifier::type_invariant]
    closed spec fn percent_bounded(self) -> bool {
        self.bootstrap_percent <= 100
    }

    pub fn new() -> (m: MockDataSource)
        ensures
            m.percent() == 0,
            m.polls() == 0,
    {
        MockDataSource { bootstrap_percent: 0, leak_toggle_counter: 0 }
    }

    fn kill_switch_info() -> (k: ModuleState<KillSwitchInfo>)
        ensures
            mock_kill_switch(k),
    {
        ModuleState::Ready(
            KillSwitchInfo {
                state: "enabled".to_owned(),
                allowed_egress: Some(MOCK_EGRESS.to_owned()),
            },
        )
    }

    /// One poll, given the random draws: bootstrap progress advances by
    /// `step` (capped at 100), the exit IP is `185.b.c.d`, and every
    /// `LEAK_EVERY`th poll reports a leak from `192.168.1.1`.
    pub fn poll_with(&mut self, step: u8, b: u8, c: u8, d: u8, latency_ms: u128) -> (s: Snapshot)
        requires
            step <= 100,
            old(self).polls() < u32::MAX,
        ensures
            final(self).polls() == old(self).polls() + 1,
            final(self).percent() == (if old(self).percent() + step > 100 {
                100
            } else {
                old(self).percent() + step
            }),
            mock_kill_switch(s.kill_switch),
            s.tor matches ModuleState::Ready(t) && t.bootstrap_percent == final(self).percent()
                && t.ready_for_traffic == (final(self).percent() == 100) && t.exit_ip == Some(
                IpAddress::V4(185, b, c, d),
            ),
            s.dns matches ModuleState::Ready(info) && info.provider@ == MOCK_PROVIDER@
                && info.leak_detected == (final(self).polls() % LEAK_EVERY == 0)
                && info.leaking_servers@ == (if final(self).polls() % LEAK_EVERY == 0 {
                seq![IpAddress::V4(192, 168, 1, 1)]
            } else {
                Seq::empty()
            }) && info.latency_ms == Some(latency_ms),
            s.banner is None,
    {
        proof {
            use_type_invariant(&*self);
        }
        let sum: u8 = self.bootstrap_percent + step;
        let percent = if sum > 100 { 100 } else { sum };
        let counter = self.leak_toggle_counter + 1;
        *self = MockDataSource { bootstrap_percent: percent, leak_toggle_counter: counter };
        let leak_detected = counter % LEAK_EVERY == 0;
        let mut leaking: Vec<IpAddress> = Vec::new();
        if leak_detected {
            leaking.push(IpAddress::V4(192, 168, 1, 1));
        }
        proof {
            if leak_detected {
                assert(leaking@ =~= seq![IpAddress::V4(192, 168, 1, 1)]);
            } else {
                assert(leaking@ =~= Seq::<IpAddress>::empty());
            }
        }
        Snapshot {
            kill_switch: Self::kill_switch_info(),
            tor: ModuleState::Ready(
                TorInfo {
                    bootstrap_percent: percent,
                    ready_for_traffic: percent == 100,
                    exit_ip: Some(IpAddress::V4(185, b, c, d)),
                },
            ),
            dns: ModuleState::Ready(
                DnsInfo {
                    provider: MOCK_PROVIDER.to_owned(),
                    leak_detected,
                    leaking_servers: leaking,
                    latency_ms: Some(latency_ms),
                },
            ),
            banner: None,
        }
    }

    /// One poll with fresh random draws: a step of 5 to 24 points, exit
    /// octets `185.[0,255).[0,255).[1,255)`, a latency of 15 to 79 ms.
    pub fn poll(&mut self) -> (s: Snapshot)
        requires
            old(self).polls() < u32::MAX,
        ensures
            final(self).polls() == old(self).polls() + 1,
            old(self).percent() < final(self).percent() || final(self).percent() == 100,
            mock_kill_switch(s.kill_switch),
            s.banner is None,
    {
        let step = random_in(5, 25);
        let b = random_in(0, 255);
        let c = random_in(0, 255);
        let d = random_in(1, 255);
        let latency = random_in(15, 80);
        self.poll_with(step as u8, b as u8, c as u8, d as u8, latency as u128)
    }

    /// Panic mode in the mock: a regular poll, with the kill switch
    /// reported forced on and a banner saying so.
    pub fn panic(&mut self) -> (s: Snapshot)
        requires
            old(self).polls() < u32::MAX,
        ensures
            final(self).polls() == old(self).polls() + 1,
            mock_kill_switch(s.kill_switch),
            s.banner is Some && s.banner->0@ == MOCK_PANIC_BANNER@,
    {
        let mut snapshot = self.poll();
        snapshot.kill_switch = Self::kill_switch_info();
        snapshot.banner = Some(MOCK_PANIC_BANNER.to_owned());
        snapshot
    }
}

impl Default for MockDataSource {
    fn default() -> (m: MockDataSource)
        ensures
            m.percent() == 0,
            m.polls() == 0,
    {
        MockDataSource::new()
    }
}

} // verus!
