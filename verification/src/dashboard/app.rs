//! The dashboard's model: one snapshot of every module, the overall
//! danger level it implies, and the transient banner.

use vstd::prelude::*;

use crate::net::IpAddress;

verus! {

/// A module's data, or why it is not available right now. Every panel
/// renders `Unavailable` sensibly rather than treating it as fatal.
#[derive(Debug, Clone)]
pub enum ModuleState<T> {
    Initializing,
    Ready(T),
    Unavailable(String),
}

#[derive(Debug, Clone)]
pub struct KillSwitchInfo {
    pub state: String,
    pub allowed_egress: Option<String>,
}

#[derive(Debug, Clone)]
pub struct TorInfo {
    pub bootstrap_percent: u8,
    pub ready_for_traffic: bool,
    pub exit_ip: Option<IpAddress>,
}

#[derive(Debug, Clone)]
pub struct DnsInfo {
    pub provider: String,
    pub leak_detected: bool,
    pub leaking_servers: Vec<IpAddress>,
    pub latency_ms: Option<u128>,
}

#[derive(Debug, Clone)]
pub struct Snapshot {
    pub kill_switch: ModuleState<KillSwitchInfo>,
    pub tor: ModuleState<TorInfo>,
    pub dns: ModuleState<DnsInfo>,
    pub banner: Option<String>,
}

impl Default for Snapshot {
    fn default() -> (s: Snapshot)
        ensures
            s.kill_switch is Initializing,
            s.tor is Initializing,
            s.dns is Initializing,
            s.banner is None,
    {
        Snapshot {
            kill_switch: ModuleState::Initializing,
            tor: ModuleState::Initializing,
            dns: ModuleState::Initializing,
            banner: None,
        }
    }
}

/// Overall danger level of a snapshot, which picks the dashboard's
/// dominant color.
#[derive(Debug, Clone, Copy, PartialEq, Eq, Structural)]
pub enum Danger {
    Protected,
    Warning,
    Danger,
}

/// Red when anything looks actively dangerous (a DNS leak, or the kill
/// switch faulted); yellow when a module is unreachable or still
/// initializing; green otherwise.
pub open spec fn danger_of(s: Snapshot) -> Danger {
    let dns_leak = s.dns matches ModuleState::Ready(d) && d.leak_detected;
    let guard_faulted = s.kill_switch matches ModuleState::Ready(k) && k.state@ == "faulted"@;
    if dns_leak || guard_faulted {
        Danger::Danger
    } else if s.kill_switch is Unavailable || s.tor is Unavailable || s.dns is Unavailable
        || s.kill_switch is Initializing || s.tor is Initializing || s.dns is Initializing {
        Danger::Warning
    } else {
        Danger::Protected
    }
}

impl Snapshot {
    pub fn danger(&self) -> (d: Danger)
        ensures
            d == danger_of(*self),
    {
        let dns_leak = match &self.dns {
            ModuleState::Ready(d) => d.leak_detected,
            _ => false,
        };
        let guard_faulted = match &self.kill_switch {
            ModuleState::Ready(k) => k.state == "faulted".to_owned(),
            _ => false,
        };
        if dns_leak || guard_faulted {
            Danger::Danger
        } else if matches!(self.kill_switch, ModuleState::Unavailable(_))
            || matches!(self.tor, ModuleState::Unavailable(_))
            || matches!(self.dns, ModuleState::Unavailable(_))
            || matches!(self.kill_switch, ModuleState::Initializing)
            || matches!(self.tor, ModuleState::Initializing)
            || matches!(self.dns, ModuleState::Initializing) {
            Danger::Warning
        } else {
            Danger::Protected
        }
    }
}

/// How long a banner stays on screen, in milliseconds.
pub const BANNER_LIFETIME_MS: u64 = 5_000;

/// The dashboard's state. Times are milliseconds on a monotonic clock the
/// application reads.
pub struct App {
    pub snapshot: Snapshot,
    pub last_updated: Option<u64>,
    pub panic_in_flight: bool,
    pub should_quit: bool,
    /// When the banner on screen expires, if one is timed.
    pub banner_expires_at: Option<u64>,
}

impl App {
    pub fn new() -> (app: App)
        ensures
            app.snapshot.kill_switch is Initializing,
            app.snapshot.tor is Initializing,
            app.snapshot.dns is Initializing,
            app.snapshot.banner is None,
            app.last_updated is None,
            !app.panic_in_flight,
            !app.should_quit,
            app.banner_expires_at is None,
    {
        App {
            snapshot: Snapshot::default(),
            last_updated: None,
            panic_in_flight: false,
            should_quit: false,
            banner_expires_at: None,
        }
    }

    /// Applies a fresh snapshot at time `now`. A banner it carries is
    /// shown for `BANNER_LIFETIME_MS`; a snapshot without one keeps the
    /// current banner until that deadline passes, then drops it.
    pub fn apply(&mut self, snapshot: Snapshot, now: u64)
        requires
            now + BANNER_LIFETIME_MS <= u64::MAX,
        ensures
            applied(*old(self), snapshot, now, *final(self)),
    {
        let mut snapshot = snapshot;
        if snapshot.banner.is_some() {
            self.banner_expires_at = Some(now + BANNER_LIFETIME_MS);
        } else {
            let keep = match self.banner_expires_at {
                Some(deadline) => now < deadline,
                None => false,
            };
            if keep {
                snapshot.banner = match &self.snapshot.banner {
                    Some(b) => Some(b.clone()),
                    None => None,
                };
            } else {
                self.banner_expires_at = None;
            }
        }
        self.snapshot = snapshot;
        self.last_updated = Some(now);
    }

    /// Called on every render tick, so an expired banner disappears even
    /// when no new snapshot arrives.
    pub fn expire_banner(&mut self, now: u64)
        ensures
            banner_expired(*old(self), now, *final(self)),
    {
        let expired = match self.banner_expires_at {
            Some(deadline) => now >= deadline,
            None => false,
        };
        if expired {
            self.snapshot.banner = None;
            self.banner_expires_at = None;
        }
    }
}

/// `after` is `before` once `snapshot` was applied at `now`.
pub open spec fn applied(before: App, snapshot: Snapshot, now: u64, after: App) -> bool {
    &&& after.last_updated == Some(now)
    &&& after.panic_in_flight == before.panic_in_flight
    &&& after.should_quit == before.should_quit
    &&& after.snapshot.kill_switch == snapshot.kill_switch
    &&& after.snapshot.tor == snapshot.tor
    &&& after.snapshot.dns == snapshot.dns
    &&& if snapshot.banner is Some {
        after.snapshot.banner == snapshot.banner && after.banner_expires_at == Some(
            (now + BANNER_LIFETIME_MS) as u64,
        )
    } else if before.banner_expires_at matches Some(d) && now < d {
        after.snapshot.banner == before.snapshot.banner && after.banner_expires_at
            == before.banner_expires_at
    } else {
        after.snapshot.banner is None && after.banner_expires_at is None
    }
}

/// `after` is `before` after the render tick at `now`.
pub open spec fn banner_expired(before: App, now: u64, after: App) -> bool {
    &&& after.snapshot.kill_switch == before.snapshot.kill_switch
    &&& after.snapshot.tor == before.snapshot.tor
    &&& after.snapshot.dns == before.snapshot.dns
    &&& after.last_updated == before.last_updated
    &&& after.panic_in_flight == before.panic_in_flight
    &&& after.should_quit == before.should_quit
    &&& if before.banner_expires_at matches Some(d) && now >= d {
        after.snapshot.banner is None && after.banner_expires_at is None
    } else {
        after.snapshot.banner == before.snapshot.banner && after.banner_expires_at
            == before.banner_expires_at
    }
}

/// A banner never outlives its lifetime: once a snapshot carrying one is
/// applied at `t`, a render tick at any `t2 >= t + BANNER_LIFETIME_MS`
/// clears it, while a tick before that keeps it.
pub proof fn law_banner_lifetime(a0: App, s: Snapshot, t: u64, a1: App, t2: u64, a2: App)
    requires
        s.banner is Some,
        t + BANNER_LIFETIME_MS <= u64::MAX,
        applied(a0, s, t, a1),
        banner_expired(a1, t2, a2),
    ensures
        t2 >= t + BANNER_LIFETIME_MS ==> a2.snapshot.banner is None,
        t2 < t + BANNER_LIFETIME_MS ==> a2.snapshot.banner == s.banner,
{
}

/// A key press, as far as the dashboard tells keys apart.
#[derive(Debug, Clone, Copy, PartialEq, Eq, Structural)]
pub enum Key {
    Char(char),
    Esc,
    Other,
}

/// What the dashboard does on a key press.
pub open spec fn key_effect(before: App, key: Key, after: App, send_panic: bool) -> bool {
    let quits = key == Key::Char('q') || key == Key::Esc;
    let panics = key == Key::Char('p') || key == Key::Char('P');
    &&& after.snapshot == before.snapshot
    &&& after.last_updated == before.last_updated
    &&& after.banner_expires_at == before.banner_expires_at
    &&& after.should_quit == (before.should_quit || quits)
    &&& after.panic_in_flight == (before.panic_in_flight || panics)
    &&& send_panic == panics
}

impl App {
    /// A fresh snapshot arrived from the data source at `now`: whatever
    /// panic mode was doing is over, and the snapshot is applied.
    pub fn on_snapshot(&mut self, snapshot: Snapshot, now: u64)
        requires
            now + BANNER_LIFETIME_MS <= u64::MAX,
        ensures
            !final(self).panic_in_flight,
            applied(App { panic_in_flight: false, ..*old(self) }, snapshot, now, *final(self)),
    {
        self.panic_in_flight = false;
        self.apply(snapshot, now);
    }

    /// A key press: `q` or Esc quits; `p` or `P` starts panic mode, and
    /// the result says the panic command is to be sent to the data source.
    pub fn on_key(&mut self, key: Key) -> (send_panic: bool)
        ensures
            key_effect(*old(self), key, *final(self), send_panic),
    {
        match key {
            Key::Char('q') | Key::Esc => {
                self.should_quit = true;
                false
            },
            Key::Char('p') | Key::Char('P') => {
                self.panic_in_flight = true;
                true
            },
            _ => false,
        }
    }

    /// The terminal's input stream failed or ended: the dashboard quits.
    pub fn on_input_closed(&mut self)
        ensures
            final(self).should_quit,
            final(self).snapshot == old(self).snapshot,
            final(self).panic_in_flight == old(self).panic_in_flight,
            final(self).last_updated == old(self).last_updated,
            final(self).banner_expires_at == old(self).banner_expires_at,
    {
        self.should_quit = true;
    }
}

} // verus!
