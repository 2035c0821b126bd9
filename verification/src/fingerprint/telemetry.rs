//! OS-level telemetry audit: is the platform's own diagnostic collection
//! active, and how to turn it off. This only reports and recommends; it
//! never changes system configuration.
//!
//! The application probes the system (files, `systemctl`, PowerShell and
//! the JSON it prints); the functions here turn what it found into
//! findings.

use vstd::prelude::*;

use crate::fingerprint::report::{finding_is, Category, Finding, Severity};
use crate::text::{
    concat2, concat3, has_suffix, has_trimmed_line, is_line, parse_i32, parsed_i32, push_signed_decimal,
    signed_decimal, trim, trimmed,
};

verus! {

pub const UBUNTU_REPORT_SUMMARY: &'static str = "ubuntu-report is installed (Ubuntu's system/hardware telemetry tool)";

pub const UBUNTU_REPORT_RECOMMENDATION: &'static str = "opt out with `ubuntu-report -f send no` (add `sudo` to also cover the system-wide report)";

/// The findings for `/usr/bin/ubuntu-report`: one when it is installed,
/// none otherwise.
pub open spec fn ubuntu_report_findings(fs: Seq<Finding>, installed: bool) -> bool {
    &&& !installed ==> fs.len() == 0
    &&& installed ==> fs.len() == 1 && finding_is(
        fs[0],
        Category::Telemetry,
        Severity::Medium,
        UBUNTU_REPORT_SUMMARY@,
        Some(UBUNTU_REPORT_RECOMMENDATION@),
    )
}

pub fn check_ubuntu_report(installed: bool) -> (fs: Vec<Finding>)
    ensures
        ubuntu_report_findings(fs@, installed),
{
    let mut fs: Vec<Finding> = Vec::new();
    if installed {
        fs.push(
            Finding::new(Category::Telemetry, Severity::Medium, UBUNTU_REPORT_SUMMARY).with_recommendation(
                UBUNTU_REPORT_RECOMMENDATION,
            ),
        );
    }
    fs
}

/// What `systemctl is-active <unit>` printed says: active exactly when
/// the trimmed output is `active`; `None` when systemctl could not run.
pub fn systemctl_is_active(stdout: Option<&str>) -> (r: Option<bool>)
    ensures
        match stdout {
            Some(out) => r == Some(trimmed(out@) == "active"@),
            None => r is None,
        },
{
    match stdout {
        Some(out) => {
            let t = trim(out);
            Some(t == "active".to_owned())
        },
        None => None,
    }
}

/// The findings for a telemetry service: one when it is active (with how
/// to disable it), one when installed but inactive, none when the unit is
/// unknown or systemctl is unavailable.
pub open spec fn service_findings(fs: Seq<Finding>, unit: Seq<char>, description: Seq<char>, active: Option<bool>) -> bool {
    &&& fs.len() == (if active is Some { 1int } else { 0 })
    &&& active == Some(true) ==> finding_is(
        fs[0],
        Category::Telemetry,
        Severity::Medium,
        unit + " ("@ + description + ") is active"@,
        Some("disable it: `sudo systemctl disable --now "@ + unit + "`"@),
    )
    &&& active == Some(false) ==> finding_is(
        fs[0],
        Category::Telemetry,
        Severity::Info,
        unit + " is installed but not active"@,
        None,
    )
}

pub fn check_service(unit: &str, description: &str, active: Option<bool>) -> (fs: Vec<Finding>)
    ensures
        service_findings(fs@, unit@, description@, active),
{
    let mut fs: Vec<Finding> = Vec::new();
    match active {
        Some(true) => {
            let mut summary = concat3(unit, " (", description);
            summary.append(") is active");
            let rec = concat3("disable it: `sudo systemctl disable --now ", unit, "`");
            fs.push(
                Finding::new(Category::Telemetry, Severity::Medium, summary.as_str()).with_recommendation(
                    rec.as_str(),
                ),
            );
        },
        Some(false) => {
            let summary = concat2(unit, " is installed but not active");
            fs.push(Finding::new(Category::Telemetry, Severity::Info, summary.as_str()));
        },
        None => {},
    }
    fs
}

pub const POPCON_SUMMARY: &'static str = "popularity-contest is enabled (periodically reports your installed packages upstream)";

pub const POPCON_RECOMMENDATION: &'static str = "disable it: `sudo dpkg-reconfigure popularity-contest` and choose No";

/// `/etc/popularity-contest.conf` opts in: some line, trimmed, reads
/// `PARTICIPATE="yes"`.
pub open spec fn popcon_participates(contents: Seq<char>) -> bool {
    exists|a: int, e: int|
        is_line(contents, a, e) && #[trigger] trimmed(contents.subrange(a, e))
            == "PARTICIPATE=\"yes\""@
}

/// The findings for popularity-contest, given the contents of its config
/// file (`None` when it could not be read): one when it participates.
pub open spec fn popcon_findings(fs: Seq<Finding>, contents: Option<Seq<char>>) -> bool {
    &&& (contents is Some && popcon_participates(contents->0)) ==> fs.len() == 1 && finding_is(
        fs[0],
        Category::Telemetry,
        Severity::Medium,
        POPCON_SUMMARY@,
        Some(POPCON_RECOMMENDATION@),
    )
    &&& !(contents is Some && popcon_participates(contents->0)) ==> fs.len() == 0
}

pub open spec fn opt_text(o: Option<&str>) -> Option<Seq<char>> {
    match o {
        Some(s) => Some(s@),
        None => None,
    }
}

pub fn check_popularity_contest(contents: Option<&str>) -> (fs: Vec<Finding>)
    ensures
        popcon_findings(fs@, opt_text(contents)),
{
    let mut fs: Vec<Finding> = Vec::new();
    match contents {
        Some(c) => {
            if has_trimmed_line(c, "PARTICIPATE=\"yes\"") {
                fs.push(
                    Finding::new(Category::Telemetry, Severity::Medium, POPCON_SUMMARY).with_recommendation(
                        POPCON_RECOMMENDATION,
                    ),
                );
            }
        },
        None => {},
    }
    fs
}

pub open spec fn count(b: bool) -> int {
    if b { 1 } else { 0 }
}

/// Every Linux telemetry finding: ubuntu-report, the `whoopsie` and
/// `apport` services, then popularity-contest, each with its own findings.
pub open spec fn linux_telemetry_findings(
    fs: Seq<Finding>,
    ubuntu_report_installed: bool,
    whoopsie_active: Option<bool>,
    apport_active: Option<bool>,
    popcon_conf: Option<Seq<char>>,
) -> bool {
    let a = count(ubuntu_report_installed);
    let b = a + count(whoopsie_active is Some);
    let c = b + count(apport_active is Some);
    let d = c + count(popcon_conf is Some && popcon_participates(popcon_conf->0));
    &&& fs.len() == d
    &&& ubuntu_report_findings(fs.subrange(0, a), ubuntu_report_installed)
    &&& service_findings(fs.subrange(a, b), "whoopsie"@, "Ubuntu crash report uploader"@, whoopsie_active)
    &&& service_findings(fs.subrange(b, c), "apport"@, "crash report collector"@, apport_active)
    &&& popcon_findings(fs.subrange(c, d), popcon_conf)
}

pub fn checks(
    ubuntu_report_installed: bool,
    whoopsie_active: Option<bool>,
    apport_active: Option<bool>,
    popcon_conf: Option<&str>,
) -> (fs: Vec<Finding>)
    ensures
        linux_telemetry_findings(fs@, ubuntu_report_installed, whoopsie_active, apport_active, opt_text(popcon_conf)),
{
    let mut fs = check_ubuntu_report(ubuntu_report_installed);
    let w = check_service("whoopsie", "Ubuntu crash report uploader", whoopsie_active);
    let a = check_service("apport", "crash report collector", apport_active);
    let p = check_popularity_contest(popcon_conf);
    let ghost (u0, w0, a0, p0) = (fs@, w@, a@, p@);
    let mut w = w;
    let mut a = a;
    let mut p = p;
    fs.append(&mut w);
    fs.append(&mut a);
    fs.append(&mut p);
    proof {
        let all = u0 + w0 + a0 + p0;
        assert(fs@ =~= all);
        let x = u0.len() as int;
        let y = x + w0.len();
        let z = y + a0.len();
        assert(all.subrange(0, x) =~= u0);
        assert(all.subrange(x, y) =~= w0);
        assert(all.subrange(y, z) =~= a0);
        assert(all.subrange(z, all.len() as int) =~= p0);
    }
    fs
}

/// The state of the DiagTrack service as Windows reports it.
#[derive(Debug, Clone)]
pub struct ServiceInfo {
    pub status: String,
    pub start_type: String,
}

pub const DIAGTRACK_RECOMMENDATION: &'static str = "disable it as Administrator: `Stop-Service DiagTrack; Set-Service DiagTrack -StartupType Disabled`";

/// The DiagTrack finding, given what the service query printed (`None`
/// when the query failed) and the service state parsed from the trimmed
/// output (`None` when it did not parse).
pub open spec fn diagtrack_finding(f: Finding, output: Option<Seq<char>>, service: Option<ServiceInfo>) -> bool {
    match output {
        None => finding_is(f, Category::Telemetry, Severity::Info, "could not query the DiagTrack service"@, None),
        Some(out) => if trimmed(out).len() == 0 {
            finding_is(f, Category::Telemetry, Severity::Info, "DiagTrack service not found"@, None)
        } else {
            match service {
                None => finding_is(
                    f,
                    Category::Telemetry,
                    Severity::Info,
                    "could not parse DiagTrack service state"@,
                    None,
                ),
                Some(info) => if info.status@ == "Running"@ {
                    finding_is(
                        f,
                        Category::Telemetry,
                        Severity::Medium,
                        "DiagTrack (Connected User Experiences and Telemetry) service is running"@,
                        Some(DIAGTRACK_RECOMMENDATION@),
                    )
                } else {
                    finding_is(
                        f,
                        Category::Telemetry,
                        Severity::Info,
                        "DiagTrack service is "@ + info.status@ + " (start type: "@ + info.start_type@
                            + ")"@,
                        None,
                    )
                },
            }
        },
    }
}

/// Audits the DiagTrack (Connected User Experiences and Telemetry)
/// service.
pub fn check_diagtrack(output: Option<&str>, service: Option<ServiceInfo>) -> (fs: Vec<Finding>)
    ensures
        fs@.len() == 1,
        diagtrack_finding(
            fs@[0],
            match output {
                Some(o) => Some(o@),
                None => None,
            },
            service,
        ),
{
    let mut fs: Vec<Finding> = Vec::new();
    let out = match output {
        None => {
            fs.push(
                Finding::new(Category::Telemetry, Severity::Info, "could not query the DiagTrack service"),
            );
            return fs;
        },
        Some(o) => o,
    };
    let t = trim(out);
    if t.unicode_len() == 0 {
        fs.push(Finding::new(Category::Telemetry, Severity::Info, "DiagTrack service not found"));
        return fs;
    }
    let info = match service {
        None => {
            fs.push(
                Finding::new(Category::Telemetry, Severity::Info, "could not parse DiagTrack service state"),
            );
            return fs;
        },
        Some(i) => i,
    };
    if info.status == "Running".to_owned() {
        fs.push(
            Finding::new(
                Category::Telemetry,
                Severity::Medium,
                "DiagTrack (Connected User Experiences and Telemetry) service is running",
            ).with_recommendation(DIAGTRACK_RECOMMENDATION),
        );
    } else {
        let mut summary = concat3("DiagTrack service is ", info.status.as_str(), " (start type: ");
        summary.append(info.start_type.as_str());
        summary.append(")");
        fs.push(Finding::new(Category::Telemetry, Severity::Info, summary.as_str()));
    }
    fs
}

pub const POLICY_RECOMMENDATION: &'static str = "lower it via Group Policy, or (Enterprise/Education only) `New-ItemProperty -Path 'HKLM:\\SOFTWARE\\Policies\\Microsoft\\Windows\\DataCollection' -Name AllowTelemetry -Value 0 -PropertyType DWord -Force`";

pub const NO_POLICY_SUMMARY: &'static str = "no AllowTelemetry policy set (default diagnostic data collection level applies)";

pub const NO_POLICY_RECOMMENDATION: &'static str = "Settings > Privacy & security > Diagnostics & feedback, set to the minimum available level";

/// The telemetry level an `AllowTelemetry` value reads as: the number,
/// or -1 when it is not one.
pub open spec fn policy_level(value: Seq<char>) -> int {
    match parsed_i32(trimmed(value)) {
        Some(l) => l as int,
        None => -1,
    }
}

/// The finding for the `AllowTelemetry` policy, given what reading it
/// printed (`None` when the read failed).
pub open spec fn policy_finding(f: Finding, output: Option<Seq<char>>) -> bool {
    match output {
        Some(value) => if trimmed(value).len() > 0 {
            let level = policy_level(value);
            if level <= 1 {
                finding_is(
                    f,
                    Category::Telemetry,
                    Severity::Info,
                    "AllowTelemetry policy set to "@ + signed_decimal(level) + " (Security/Basic)"@,
                    None,
                )
            } else {
                finding_is(
                    f,
                    Category::Telemetry,
                    Severity::Medium,
                    "AllowTelemetry policy set to "@ + signed_decimal(level) + " (above Basic)"@,
                    Some(POLICY_RECOMMENDATION@),
                )
            }
        } else {
            finding_is(f, Category::Telemetry, Severity::Medium, NO_POLICY_SUMMARY@, Some(NO_POLICY_RECOMMENDATION@))
        },
        None => finding_is(f, Category::Telemetry, Severity::Medium, NO_POLICY_SUMMARY@, Some(NO_POLICY_RECOMMENDATION@)),
    }
}

/// Audits the Windows `AllowTelemetry` group policy.
pub fn check_telemetry_policy(output: Option<&str>) -> (fs: Vec<Finding>)
    ensures
        fs@.len() == 1,
        policy_finding(
            fs@[0],
            match output {
                Some(o) => Some(o@),
                None => None,
            },
        ),
{
    let mut fs: Vec<Finding> = Vec::new();
    match output {
        Some(value) => {
            let t = trim(value);
            if t.unicode_len() > 0 {
                let level: i32 = match parse_i32(t.as_str()) {
                    Some(l) => l,
                    None => -1,
                };
                let mut summary = String::new();
                summary.append("AllowTelemetry policy set to ");
                push_signed_decimal(&mut summary, level as i64);
                if level <= 1 {
                    summary.append(" (Security/Basic)");
                    fs.push(Finding::new(Category::Telemetry, Severity::Info, summary.as_str()));
                } else {
                    summary.append(" (above Basic)");
                    fs.push(
                        Finding::new(Category::Telemetry, Severity::Medium, summary.as_str()).with_recommendation(
                            POLICY_RECOMMENDATION,
                        ),
                    );
                }
                return fs;
            }
        },
        None => {},
    }
    fs.push(
        Finding::new(Category::Telemetry, Severity::Medium, NO_POLICY_SUMMARY).with_recommendation(
            NO_POLICY_RECOMMENDATION,
        ),
    );
    fs
}

/// Every Windows telemetry finding: DiagTrack, then the policy.
pub fn windows_checks(
    diagtrack_output: Option<&str>,
    diagtrack_service: Option<ServiceInfo>,
    policy_output: Option<&str>,
) -> (fs: Vec<Finding>)
    ensures
        fs@.len() == 2,
        diagtrack_finding(
            fs@[0],
            match diagtrack_output {
                Some(o) => Some(o@),
                None => None,
            },
            diagtrack_service,
        ),
        policy_finding(
            fs@[1],
            match policy_output {
                Some(o) => Some(o@),
                None => None,
            },
        ),
{
    let mut fs = check_diagtrack(diagtrack_output, diagtrack_service);
    let mut p = check_telemetry_policy(policy_output);
    fs.append(&mut p);
    fs
}

/// An `AllowTelemetry` value above 1 (Enhanced 2, Full 3, or more) is a
/// Medium finding labelled above Basic, with advice to lower it; only a
/// value of 1 or below is an Info finding, labelled Security/Basic.
pub proof fn law_telemetry_above_basic_is_medium(f: Finding, value: Seq<char>)
    requires
        policy_finding(f, Some(value)),
        trimmed(value).len() > 0,
    ensures
        policy_level(value) >= 2 ==> f.severity == Severity::Medium && f.recommendation is Some
            && has_suffix(f.summary@, " (above Basic)"@),
        policy_level(value) <= 1 ==> f.severity == Severity::Info && f.recommendation is None
            && has_suffix(f.summary@, " (Security/Basic)"@),
{
    let s = "AllowTelemetry policy set to "@ + signed_decimal(policy_level(value));
    if policy_level(value) >= 2 {
        assert((s + " (above Basic)"@).skip((s + " (above Basic)"@).len() - " (above Basic)"@.len()) =~= " (above Basic)"@);
    } else {
        assert((s + " (Security/Basic)"@).skip((s + " (Security/Basic)"@).len() - " (Security/Basic)"@.len())
            =~= " (Security/Basic)"@);
    }
}

} // verus!
