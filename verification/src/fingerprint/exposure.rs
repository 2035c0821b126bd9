//! Public network exposure: what a plain outbound HTTP request from this
//! machine reveals about it (public IP, network operator, approximate
//! location) to any site it connects to outside Tor or a VPN.
//!
//! The application fetches the public IP-info document and parses its
//! JSON; this module turns the outcome into findings.

use vstd::prelude::*;

use crate::fingerprint::network_identity::{ascii_text, to_lowercase, unicode_lower};
use crate::fingerprint::report::{finding_is, Category, Finding, Severity};
use crate::text::{ascii_lower_seq, concat2, concat3, contains, has_infix, occurs_at};

verus! {

/// The fields of the IP-info service's answer this check reads.
#[derive(Debug, Clone)]
pub struct IpInfoResponse {
    pub ip: Option<String>,
    pub city: Option<String>,
    pub region: Option<String>,
    pub country_name: Option<String>,
    pub org: Option<String>,
    pub error: Option<bool>,
    pub reason: Option<String>,
}

/// Where fetching the IP-info document failed.
#[derive(Debug, Clone)]
pub enum FetchFailure {
    /// The HTTP client could not be built.
    Client(String),
    /// The service could not be reached, or answered with an error status.
    Request(String),
    /// The response body could not be read.
    Body(String),
}

pub open spec fn text_or(o: Option<String>, fallback: Seq<char>) -> Seq<char> {
    match o {
        Some(s) => s@,
        None => fallback,
    }
}

/// The parts of the location that are known, in order city, region,
/// country, joined by `, `.
pub open spec fn location_text(city: Option<String>, region: Option<String>, country: Option<String>) -> Seq<char> {
    join_known(seq![city, region, country])
}

/// The texts of the known parts, in order.
pub open spec fn known_parts(parts: Seq<Option<String>>) -> Seq<Seq<char>>
    decreases parts.len(),
{
    if parts.len() == 0 {
        Seq::empty()
    } else {
        match parts.last() {
            Some(p) => known_parts(parts.drop_last()).push(p@),
            None => known_parts(parts.drop_last()),
        }
    }
}

proof fn lemma_known_parts_len(parts: Seq<Option<String>>)
    ensures
        known_parts(parts).len() <= parts.len(),
    decreases parts.len(),
{
    if parts.len() > 0 {
        lemma_known_parts_len(parts.drop_last());
    }
}

/// `texts` joined by `, `.
pub open spec fn comma_joined(texts: Seq<Seq<char>>) -> Seq<char>
    decreases texts.len(),
{
    if texts.len() == 0 {
        Seq::empty()
    } else if texts.len() == 1 {
        texts[0]
    } else {
        comma_joined(texts.drop_last()) + ", "@ + texts.last()
    }
}

pub open spec fn join_known(parts: Seq<Option<String>>) -> Seq<char> {
    comma_joined(known_parts(parts))
}

/// `org` lowercased as `str::to_lowercase` does it: the ASCII lowercase
/// for ASCII text, the Unicode lowercase otherwise.
pub open spec fn org_lowercase(org: Seq<char>) -> Seq<char> {
    if ascii_text(org) {
        ascii_lower_seq(org)
    } else {
        unicode_lower(org)
    }
}

/// The operator name reads like a Tor exit, VPN, relay or proxy.
pub open spec fn privacy_egress(org: Seq<char>) -> bool {
    let lower = org_lowercase(org);
    has_infix(lower, "tor"@) || has_infix(lower, "vpn"@) || has_infix(lower, "relay"@)
        || has_infix(lower, "proxy"@)
}

pub const DIRECT_EXPOSURE_RECOMMENDATION: &'static str = "any site you connect to directly (outside Tor) sees this IP/ISP/location; use blackhole-core's kill switch for traffic that should stay anonymous";

/// The finding for an IP-info answer.
pub open spec fn ip_info_finding(f: Finding, info: IpInfoResponse) -> bool {
    if info.error == Some(true) {
        finding_is(
            f,
            Category::Exposure,
            Severity::Info,
            "IP-info service declined the request: "@ + text_or(info.reason, "unknown reason"@),
            None,
        )
    } else {
        let org = text_or(info.org, "(unknown network operator)"@);
        let location = location_text(info.city, info.region, info.country_name);
        let summary = "outbound traffic exits as "@ + text_or(info.ip, "(unknown)"@) + " via "@ + org
            + if location.len() == 0 {
            Seq::empty()
        } else {
            " ("@ + location + ")"@
        };
        if privacy_egress(org) {
            finding_is(
                f,
                Category::Exposure,
                Severity::Info,
                summary + " — looks like a Tor/VPN egress, not your direct ISP"@,
                None,
            )
        } else {
            finding_is(f, Category::Exposure, Severity::Medium, summary, Some(DIRECT_EXPOSURE_RECOMMENDATION@))
        }
    }
}

fn append_known(out: &mut String, count: &mut usize, part: &Option<String>, parts: Ghost<Seq<Option<String>>>)
    requires
        old(out)@ == join_known(parts@),
        *old(count) == known_parts(parts@).len(),
        *old(count) < 3,
        parts@.len() < 3,
    ensures
        final(out)@ == join_known(parts@.push(*part)),
        *final(count) == known_parts(parts@.push(*part)).len(),
{
    proof {
        assert(parts@.push(*part).drop_last() =~= parts@);
    }
    match part {
        Some(p) => {
            if *count > 0 {
                out.append(", ");
            }
            out.append(p.as_str());
            *count = *count + 1;
            proof {
                let k = known_parts(parts@);
                assert(k.push(p@).drop_last() =~= k);
                if k.len() == 0 {
                    assert(out@ =~= comma_joined(k.push(p@)));
                } else {
                    assert(out@ =~= comma_joined(k.push(p@)));
                }
            }
        },
        None => {},
    }
}

/// Turns the service's answer into one finding: declined, a Tor/VPN-like
/// egress (fine), or the direct ISP (exposed).
pub fn findings_from_ip_info(info: IpInfoResponse) -> (fs: Vec<Finding>)
    ensures
        fs@.len() == 1,
        ip_info_finding(fs@[0], info),
{
    let mut fs: Vec<Finding> = Vec::new();
    if info.error == Some(true) {
        let reason = match &info.reason {
            Some(r) => r.clone(),
            None => "unknown reason".to_owned(),
        };
        let summary = concat2("IP-info service declined the request: ", reason.as_str());
        fs.push(Finding::new(Category::Exposure, Severity::Info, summary.as_str()));
        return fs;
    }
    let ip = match &info.ip {
        Some(i) => i.clone(),
        None => "(unknown)".to_owned(),
    };
    let org = match &info.org {
        Some(o) => o.clone(),
        None => "(unknown network operator)".to_owned(),
    };
    let mut location = String::new();
    let mut count: usize = 0;
    let ghost p0: Seq<Option<String>> = Seq::empty();
    let ghost p1 = seq![info.city];
    let ghost p2 = seq![info.city, info.region];
    proof {
        assert(join_known(Seq::<Option<String>>::empty()) =~= Seq::<char>::empty());
        assert(Seq::<Option<String>>::empty().push(info.city) =~= seq![info.city]);
    }
    append_known(&mut location, &mut count, &info.city, Ghost(p0));
    proof {
        assert(p1.drop_last() =~= p0);
        lemma_known_parts_len(p1);
        assert(p2.drop_last() =~= p1);
        lemma_known_parts_len(p2);
    }
    append_known(&mut location, &mut count, &info.region, Ghost(p1));
    assert(seq![info.city].push(info.region) =~= seq![info.city, info.region]);
    append_known(&mut location, &mut count, &info.country_name, Ghost(p2));
    assert(seq![info.city, info.region].push(info.country_name) =~= seq![
        info.city,
        info.region,
        info.country_name,
    ]);
    assert(location@ == location_text(info.city, info.region, info.country_name));
    assert(org@ == text_or(info.org, "(unknown network operator)"@));
    assert(ip@ == text_or(info.ip, "(unknown)"@));
    let lower = to_lowercase(org.as_str());
    let egress = contains(lower.as_str(), "tor") || contains(lower.as_str(), "vpn") || contains(
        lower.as_str(),
        "relay",
    ) || contains(lower.as_str(), "proxy");
    let mut summary = concat3("outbound traffic exits as ", ip.as_str(), " via ");
    summary.append(org.as_str());
    if location.unicode_len() > 0 {
        summary.append(" (");
        summary.append(location.as_str());
        summary.append(")");
    }
    assert(egress == privacy_egress(org@));
    assert(info.error != Some(true));
    assert(summary@ =~= "outbound traffic exits as "@ + text_or(info.ip, "(unknown)"@) + " via "@ + text_or(info.org, "(unknown network operator)"@)
            + if location@.len() == 0 {
            Seq::<char>::empty()
        } else {
            " ("@ + location@ + ")"@
        });
    if egress {
        summary.append(" — looks like a Tor/VPN egress, not your direct ISP");
        fs.push(Finding::new(Category::Exposure, Severity::Info, summary.as_str()));
    } else {
        fs.push(
            Finding::new(Category::Exposure, Severity::Medium, summary.as_str()).with_recommendation(
                DIRECT_EXPOSURE_RECOMMENDATION,
            ),
        );
    }
    fs
}

/// The exposure finding for the outcome of fetching and parsing the
/// IP-info document: the stage that failed, the JSON error, or the
/// findings for the answer.
pub fn checks(fetched: Result<Result<IpInfoResponse, String>, FetchFailure>) -> (fs: Vec<Finding>)
    ensures
        fs@.len() == 1,
        match fetched {
            Err(FetchFailure::Client(e)) => finding_is(
                fs@[0],
                Category::Exposure,
                Severity::Info,
                "could not build HTTP client for exposure check: "@ + e@,
                None,
            ),
            Err(FetchFailure::Request(e)) => finding_is(
                fs@[0],
                Category::Exposure,
                Severity::Info,
                "could not reach the public IP-info service ("@ + e@
                    + "); skipping network exposure check"@,
                None,
            ),
            Err(FetchFailure::Body(e)) => finding_is(
                fs@[0],
                Category::Exposure,
                Severity::Info,
                "could not read IP-info response body: "@ + e@,
                None,
            ),
            Ok(Err(e)) => finding_is(
                fs@[0],
                Category::Exposure,
                Severity::Info,
                "could not parse IP-info response: "@ + e@,
                None,
            ),
            Ok(Ok(info)) => ip_info_finding(fs@[0], info),
        },
{
    match fetched {
        Err(FetchFailure::Client(e)) => {
            let mut fs: Vec<Finding> = Vec::new();
            let s = concat2("could not build HTTP client for exposure check: ", e.as_str());
            fs.push(Finding::new(Category::Exposure, Severity::Info, s.as_str()));
            fs
        },
        Err(FetchFailure::Request(e)) => {
            let mut fs: Vec<Finding> = Vec::new();
            let s = concat3(
                "could not reach the public IP-info service (",
                e.as_str(),
                "); skipping network exposure check",
            );
            fs.push(Finding::new(Category::Exposure, Severity::Info, s.as_str()));
            fs
        },
        Err(FetchFailure::Body(e)) => {
            let mut fs: Vec<Finding> = Vec::new();
            let s = concat2("could not read IP-info response body: ", e.as_str());
            fs.push(Finding::new(Category::Exposure, Severity::Info, s.as_str()));
            fs
        },
        Ok(Err(e)) => {
            let mut fs: Vec<Finding> = Vec::new();
            let s = concat2("could not parse IP-info response: ", e.as_str());
            fs.push(Finding::new(Category::Exposure, Severity::Info, s.as_str()));
            fs
        },
        Ok(Ok(info)) => findings_from_ip_info(info),
    }
}

/// An operator name whose lowercase form contains `tor`, `vpn`, `relay`
/// or `proxy` is taken for a privacy egress: the finding is Info with no
/// advice, never the Medium direct-exposure finding.
pub proof fn law_privacy_operators_are_not_direct_exposure(f: Finding, info: IpInfoResponse, word: Seq<char>, at: int)
    requires
        ip_info_finding(f, info),
        info.error != Some(true),
        info.org is Some,
        word == "tor"@ || word == "vpn"@ || word == "relay"@ || word == "proxy"@,
        0 <= at,
        at + word.len() <= org_lowercase(info.org->0@).len(),
        org_lowercase(info.org->0@).subrange(at, at + word.len()) == word,
    ensures
        f.severity == Severity::Info,
        f.category == Category::Exposure,
        f.recommendation is None,
{
    assert(occurs_at(org_lowercase(info.org->0@), word, at));
    assert(text_or(info.org, "(unknown network operator)"@) == info.org->0@);
}

} // verus!
