//! The encrypted resolver chain: an ordered list of DoH/DoT providers,
//! each validating DNSSEC. A lookup tries the providers in order starting
//! from the one that last succeeded, wrapping around; a provider that
//! fails (a network error, or a DNSSEC-`Bogus` answer) is skipped for the
//! next. The chain only ever holds encrypted providers: there is no path
//! to an unencrypted resolver at any priority.
//!
//! The lookups themselves are made by the application (with
//! `hickory-resolver`); this module decides which provider to ask next
//! and what a lookup's outcome means.

use vstd::prelude::*;

use crate::dns::error::DnsError;
use crate::net::IpAddress;
use crate::text::{concat3};

verus! {

/// Well-known public resolvers spoken to over DoH or DoT.
#[derive(Debug, Clone, Copy, PartialEq, Eq, Structural)]
pub enum Provider {
    Cloudflare,
    Quad9,
    Mullvad,
}

/// The addresses each provider answers on.
pub open spec fn provider_ips(p: Provider) -> Seq<IpAddress> {
    match p {
        Provider::Cloudflare => seq![IpAddress::V4(1, 1, 1, 1), IpAddress::V4(1, 0, 0, 1)],
        Provider::Quad9 => seq![IpAddress::V4(9, 9, 9, 9)],
        Provider::Mullvad => seq![IpAddress::V4(194, 242, 2, 2)],
    }
}

/// How each provider is displayed.
pub open spec fn provider_label(p: Provider) -> Seq<char> {
    match p {
        Provider::Cloudflare => "Cloudflare (1.1.1.1)"@,
        Provider::Quad9 => "Quad9 (9.9.9.9)"@,
        Provider::Mullvad => "Mullvad (194.242.2.2)"@,
    }
}

impl Provider {
    /// The addresses this provider answers on; leak detection recognizes
    /// an OS resolver pointed at one of them as intended.
    pub fn ip_addrs(self) -> (r: Vec<IpAddress>)
        ensures
            r@ == provider_ips(self),
    {
        let mut r: Vec<IpAddress> = Vec::new();
        match self {
            Provider::Cloudflare => {
                r.push(IpAddress::V4(1, 1, 1, 1));
                r.push(IpAddress::V4(1, 0, 0, 1));
            },
            Provider::Quad9 => {
                r.push(IpAddress::V4(9, 9, 9, 9));
            },
            Provider::Mullvad => {
                r.push(IpAddress::V4(194, 242, 2, 2));
            },
        }
        assert(r@ =~= provider_ips(self));
        r
    }

    pub fn label(self) -> (r: &'static str)
        ensures
            r@ == provider_label(self),
    {
        match self {
            Provider::Cloudflare => "Cloudflare (1.1.1.1)",
            Provider::Quad9 => "Quad9 (9.9.9.9)",
            Provider::Mullvad => "Mullvad (194.242.2.2)",
        }
    }
}

#[derive(Debug, Clone, Copy, PartialEq, Eq, Structural)]
pub enum Transport {
    Doh,
    Dot,
}

/// One answer record as the resolver returned it: its owner name,
/// whether its DNSSEC proof is `Bogus`, and its address, if it is an
/// address record.
#[derive(Debug, Clone)]
pub struct DnsRecord {
    pub name: String,
    pub bogus: bool,
    pub ip: Option<IpAddress>,
}

/// The first record of `records` whose proof is `Bogus`, if any.
pub open spec fn first_bogus(records: Seq<DnsRecord>, i: int) -> bool {
    0 <= i < records.len() && records[i].bogus && forall|j: int| 0 <= j < i ==> !(#[trigger] records[j]).bogus
}

/// The error for an answer whose record `record_name` is `Bogus`.
pub open spec fn bogus_error_detail(record_name: Seq<char>) -> Seq<char> {
    "record '"@ + record_name + "' has DNSSEC proof Bogus (signature or chain of trust invalid)"@
}

/// Rejects an answer holding any record whose DNSSEC proof is `Bogus`
/// (validation says it should be signed and is not); `Secure` and
/// `Insecure` (legitimately unsigned) records pass.
pub fn reject_bogus(records: &Vec<DnsRecord>, name: &str) -> (r: Result<(), DnsError>)
    ensures
        (forall|i: int| 0 <= i < records@.len() ==> !(#[trigger] records@[i]).bogus) ==> r is Ok,
        !(forall|i: int| 0 <= i < records@.len() ==> !(#[trigger] records@[i]).bogus) ==> exists|i: int|
            #[trigger] first_bogus(records@, i) && (r matches Err(
                DnsError::DnssecValidationFailed { name: n, detail: d },
            ) && n@ == name@ && d@ == bogus_error_detail(records@[i].name@)),
{
    let mut i: usize = 0;
    while i < records.len()
        invariant
            i <= records@.len(),
            forall|j: int| 0 <= j < i ==> !(#[trigger] records@[j]).bogus,
        decreases records@.len() - i,
    {
        if records[i].bogus {
            let detail = concat3(
                "record '",
                records[i].name.as_str(),
                "' has DNSSEC proof Bogus (signature or chain of trust invalid)",
            );
            assert(first_bogus(records@, i as int));
            return Err(DnsError::DnssecValidationFailed { name: name.to_owned(), detail });
        }
        i = i + 1;
    }
    Ok(())
}

/// The addresses carried by `records`, in order.
pub open spec fn record_ips(records: Seq<DnsRecord>) -> Seq<IpAddress>
    decreases records.len(),
{
    if records.len() == 0 {
        Seq::empty()
    } else {
        match records.last().ip {
            Some(ip) => record_ips(records.drop_last()).push(ip),
            None => record_ips(records.drop_last()),
        }
    }
}

fn ips_of(records: &Vec<DnsRecord>) -> (r: Vec<IpAddress>)
    ensures
        r@ == record_ips(records@),
{
    let mut r: Vec<IpAddress> = Vec::new();
    let mut i: usize = 0;
    while i < records.len()
        invariant
            i <= records@.len(),
            r@ == record_ips(records@.take(i as int)),
        decreases records@.len() - i,
    {
        proof {
            assert(records@.take(i + 1).drop_last() =~= records@.take(i as int));
            assert(records@.take(i + 1).last() == records@[i as int]);
        }
        match records[i].ip {
            Some(ip) => r.push(ip),
            None => {},
        }
        i = i + 1;
    }
    assert(records@.take(i as int) =~= records@);
    r
}

/// A resolver over a priority-ordered list of encrypted providers.
pub struct EncryptedResolver {
    transport: Transport,
    chain: Vec<Provider>,
    active: usize,
}

/// One lookup in progress: where in the chain it started, how many
/// providers it has tried, and the last failure seen.
pub struct Resolution {
    start: usize,
    tried: usize,
    last_error: Option<DnsError>,
}

impl Resolution {
    pub closed spec fn spec_start(&self) -> nat {
        self.start as nat
    }

    pub closed spec fn spec_tried(&self) -> nat {
        self.tried as nat
    }

    pub closed spec fn spec_last_error(&self) -> Option<DnsError> {
        self.last_error
    }
}

impl EncryptedResolver {
    #[verifier::type_invariant]
    closed spec fn well_formed(self) -> bool {
        0 < self.chain@.len() && self.active < self.chain@.len()
    }

    /// The providers, in priority order.
    pub closed spec fn spec_chain(&self) -> Seq<Provider> {
        self.chain@
    }

    /// The position the next lookup starts from.
    pub closed spec fn spec_active(&self) -> nat {
        self.active as nat
    }

    pub closed spec fn spec_transport(&self) -> Transport {
        self.transport
    }

    /// A chain over `providers` in priority order (index 0 first); an
    /// empty list is refused.
    pub fn new(providers: &[Provider], transport: Transport) -> (r: Result<EncryptedResolver, DnsError>)
        ensures
            providers@.len() == 0 ==> (r matches Err(DnsError::Resolve(m)) && m@
                == "at least one DoH/DoT provider must be configured"@),
            providers@.len() > 0 ==> r is Ok && r->Ok_0.spec_chain() == providers@
                && r->Ok_0.spec_active() == 0 && r->Ok_0.spec_transport() == transport,
    {
        if providers.len() == 0 {
            return Err(DnsError::Resolve("at least one DoH/DoT provider must be configured".to_owned()));
        }
        let mut chain: Vec<Provider> = Vec::new();
        let mut i: usize = 0;
        while i < providers.len()
            invariant
                i <= providers@.len(),
                chain@ == providers@.take(i as int),
            decreases providers@.len() - i,
        {
            chain.push(providers[i]);
            i = i + 1;
            assert(chain@ =~= providers@.take(i as int));
        }
        assert(chain@ =~= providers@);
        Ok(EncryptedResolver { transport, chain, active: 0 })
    }

    /// A chain of one provider.
    pub fn single(provider: Provider, transport: Transport) -> (r: EncryptedResolver)
        ensures
            r.spec_chain() == seq![provider],
            r.spec_active() == 0,
            r.spec_transport() == transport,
    {
        let mut chain: Vec<Provider> = Vec::new();
        chain.push(provider);
        assert(chain@ =~= seq![provider]);
        EncryptedResolver { transport, chain, active: 0 }
    }

    /// The provider a lookup tries first right now: the one that last
    /// succeeded, or the top of the list.
    pub fn provider(&self) -> (p: Provider)
        ensures
            p == self.spec_chain()[self.spec_active() as int],
    {
        proof {
            use_type_invariant(self);
        }
        self.chain[self.active]
    }

    pub fn transport(&self) -> (t: Transport)
        ensures
            t == self.spec_transport(),
    {
        self.transport
    }

    /// The addresses of every provider in the chain, in order.
    pub fn all_provider_ips(&self) -> (r: Vec<IpAddress>)
        ensures
            r@ == chain_ips(self.spec_chain()),
    {
        let mut r: Vec<IpAddress> = Vec::new();
        let mut i: usize = 0;
        while i < self.chain.len()
            invariant
                i <= self.chain@.len(),
                r@ == chain_ips(self.chain@.take(i as int)),
            decreases self.chain@.len() - i,
        {
            let mut ips = self.chain[i].ip_addrs();
            r.append(&mut ips);
            proof {
                assert(self.chain@.take(i + 1).drop_last() =~= self.chain@.take(i as int));
            }
            i = i + 1;
        }
        assert(self.chain@.take(i as int) =~= self.chain@);
        r
    }

    /// A lookup starting from the currently active provider.
    pub fn start_resolution(&self) -> (r: Resolution)
        ensures
            r.spec_start() == self.spec_active(),
            r.spec_start() < self.spec_chain().len(),
            r.spec_tried() == 0,
            r.spec_last_error() is None,
    {
        proof {
            use_type_invariant(self);
        }
        Resolution { start: self.active, tried: 0, last_error: None }
    }

    /// The provider to ask next, with its position in the chain: the
    /// `tried`th after the start, wrapping around; `None` once every
    /// provider has been tried.
    pub fn next_provider(&self, r: &Resolution) -> (next: Option<(usize, Provider)>)
        requires
            r.spec_start() < self.spec_chain().len(),
        ensures
            r.spec_tried() < self.spec_chain().len() ==> next == Some(
                (
                    ((r.spec_start() + r.spec_tried()) % self.spec_chain().len()) as usize,
                    self.spec_chain()[((r.spec_start() + r.spec_tried()) % self.spec_chain().len()) as int],
                ),
            ),
            r.spec_tried() >= self.spec_chain().len() ==> next is None,
    {
        proof {
            use_type_invariant(self);
        }
        if r.tried >= self.chain.len() {
            return None;
        }
        let n = self.chain.len();
        let idx = ((r.start as u128 + r.tried as u128) % (n as u128)) as usize;
        Some((idx, self.chain[idx]))
    }

    /// The outcome of asking provider `idx` (the one `next_provider`
    /// named) for `name`: a lookup error or a `Bogus` answer is recorded
    /// and the next provider is to be tried (`None`); otherwise the
    /// answer's addresses are returned and that provider becomes the
    /// active one.
    pub fn on_lookup(
        &mut self,
        r: &mut Resolution,
        idx: usize,
        name: &str,
        lookup: Result<Vec<DnsRecord>, DnsError>,
    ) -> (ips: Option<Vec<IpAddress>>)
        requires
            idx < old(self).spec_chain().len(),
            old(r).spec_tried() < old(self).spec_chain().len(),
        ensures
            final(self).spec_chain() == old(self).spec_chain(),
            final(self).spec_transport() == old(self).spec_transport(),
            final(r).spec_start() == old(r).spec_start(),
            match lookup {
                Ok(records) => if forall|i: int| 0 <= i < records@.len() ==> !(#[trigger] records@[i]).bogus {
                    ips is Some && ips->0@ == record_ips(records@) && final(self).spec_active() == idx
                        && final(r).spec_tried() == old(r).spec_tried()
                } else {
                    ips is None && final(self).spec_active() == old(self).spec_active()
                        && final(r).spec_tried() == old(r).spec_tried() + 1 && (final(r).spec_last_error() matches Some(
                        DnsError::DnssecValidationFailed { name: n, .. },
                    ) && n@ == name@)
                },
                Err(e) => ips is None && final(self).spec_active() == old(self).spec_active()
                    && final(r).spec_tried() == old(r).spec_tried() + 1 && final(r).spec_last_error()
                    == Some(e),
            },
    {
        proof {
            use_type_invariant(&*self);
        }
        let n = self.chain.len();
        assert(r.tried < n);
        match lookup {
            Ok(records) => match reject_bogus(&records, name) {
                Ok(()) => {
                    let ips = ips_of(&records);
                    self.active = idx;
                    Some(ips)
                },
                Err(e) => {
                    r.tried = r.tried + 1;
                    r.last_error = Some(e);
                    None
                },
            },
            Err(e) => {
                r.tried = r.tried + 1;
                r.last_error = Some(e);
                None
            },
        }
    }

    /// The error a lookup reports once every provider failed: the last
    /// provider's failure.
    pub fn failed(r: Resolution) -> (e: DnsError)
        ensures
            r.spec_last_error() is Some ==> e == r.spec_last_error()->0,
            r.spec_last_error() is None ==> (e matches DnsError::Resolve(m) && m@
                == "no DoH/DoT resolvers configured"@),
    {
        match r.last_error {
            Some(e) => e,
            None => DnsError::Resolve("no DoH/DoT resolvers configured".to_owned()),
        }
    }
}

/// The addresses of the providers of `chain`, in order.
pub open spec fn chain_ips(chain: Seq<Provider>) -> Seq<IpAddress>
    decreases chain.len(),
{
    if chain.len() == 0 {
        Seq::empty()
    } else {
        chain_ips(chain.drop_last()) + provider_ips(chain.last())
    }
}

/// The chain position of the `k`th provider a lookup starting at
/// `start` asks.
pub open spec fn rotated(start: nat, len: nat, k: int) -> int {
    (start + k) % (len as int)
}

/// One lookup asks every provider exactly once before giving up: the
/// positions it asks, in order, are the chain rotated to start at the
/// active one, all distinct and all within the chain.
pub proof fn law_every_provider_tried_once(len: nat, start: nat)
    requires
        start < len,
    ensures
        forall|a: int, b: int|
            0 <= a < b < len ==> #[trigger] rotated(start, len, a) != #[trigger] rotated(start, len, b),
        forall|k: int| 0 <= k < len ==> 0 <= #[trigger] rotated(start, len, k) < len,
{
    assert forall|a: int, b: int| 0 <= a < b < len implies #[trigger] rotated(start, len, a)
        != #[trigger] rotated(start, len, b) by {
        let x = start + a;
        let y = start + b;
        let l = len as int;
        if x % l == y % l {
            vstd::arithmetic::div_mod::lemma_fundamental_div_mod(x, l);
            vstd::arithmetic::div_mod::lemma_fundamental_div_mod(y, l);
            assert(false) by (nonlinear_arith)
                requires
                    0 < y - x < l,
                    x == l * (x / l) + x % l,
                    y == l * (y / l) + y % l,
                    x % l == y % l,
            ;
        }
    }
}

} // verus!
