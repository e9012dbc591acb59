//! Fixed commands of the read-only MCP tools and the service-name guard.
//!
//! Every command runs under `env LC_ALL=C` so that its output does not depend
//! on the server locale, and echoes the real exit code of each part
//! (`rc_<name>=$?`), since a compound command only reports its last part.
use vstd::prelude::*;

use crate::text::{chars_of, push_str, string_of};

verus! {

/// The command run by `disk_usage`.
pub const CMD_DISK_USAGE: &'static str = "env LC_ALL=C df -h; echo rc_df=$?";

/// The command run by `system_status` (top writes to a temporary file first so
/// that `rc_top` is top's own exit code, not that of `head`).
pub const CMD_SYSTEM_STATUS: &'static str = "env LC_ALL=C uptime; echo rc_uptime=$?; echo '---'; env LC_ALL=C free -h; echo rc_free=$?; echo '---'; __t=$(mktemp 2>/dev/null || echo /tmp/.myshelltool-top.$$); env LC_ALL=C top -bn1 >\"$__t\" 2>&1; echo rc_top=$?; head -20 \"$__t\"; rm -f \"$__t\"";

/// The command run by `resource_monitor_snapshot`.
pub const CMD_RESOURCE_MONITOR_SNAPSHOT: &'static str = "env LC_ALL=C uptime; echo rc_uptime=$?; echo '--- Memory ---'; env LC_ALL=C free -m; echo rc_free=$?; echo '--- Disk ---'; env LC_ALL=C df -h; echo rc_df=$?";

pub open spec fn service_status_text(service: Seq<char>) -> Seq<char> {
    "env LC_ALL=C systemctl status "@ + service + "; echo rc_systemctl=$?"@
}

/// The command run by `service_status` for a service name.
pub fn service_status_command(service: &str) -> (r: String)
    ensures
        r@ == service_status_text(service@),
{
    let mut v = chars_of("env LC_ALL=C systemctl status ");
    push_str(&mut v, service);
    push_str(&mut v, "; echo rc_systemctl=$?");
    string_of(v.as_slice())
}

/// `char::is_alphanumeric` (Unicode `Alphabetic` or `Numeric`) of `c`.
pub uninterp spec fn unicode_alphanumeric(c: char) -> bool;

/// `char::is_alphanumeric`: whether the character is Unicode alphabetic or numeric.
#[verifier::external_body]
pub(crate) fn char_is_alphanumeric(c: char) -> (b: bool)
    ensures
        b == unicode_alphanumeric(c),
{
    c.is_alphanumeric()
}

/// A character allowed in a systemd unit / service name: alphanumeric or one of `-_@:.`.
pub open spec fn unit_name_char(c: char) -> bool {
    unicode_alphanumeric(c) || c == '-' || c == '_' || c == '@' || c == ':' || c == '.'
}

pub open spec fn valid_unit_name(s: Seq<char>) -> bool {
    forall|i: int| 0 <= i < s.len() ==> unit_name_char(#[trigger] s[i])
}

/// Whether every character of `s` may appear in a unit name (the injection
/// guard of `service_status`, `service_control` and `journal_query`).
pub fn is_valid_unit_name(s: &str) -> (b: bool)
    ensures
        b == valid_unit_name(s@),
{
    let c = chars_of(s);
    let mut i: usize = 0;
    while i < c.len()
        invariant
            i <= c@.len(),
            c@ == s@,
            forall|k: int| 0 <= k < i ==> unit_name_char(#[trigger] c@[k]),
        decreases c.len() - i,
    {
        let ch = c[i];
        if !(char_is_alphanumeric(ch) || ch == '-' || ch == '_' || ch == '@' || ch == ':' || ch
            == '.') {
            return false;
        }
        i += 1;
    }
    true
}

/// What `service_status` does with its `service` argument.
pub enum ServiceStatusPlan {
    /// Refuse with this message.
    Reject(String),
    /// Run this command on the asset.
    Run(String),
}

/// `service_status`: an empty or unsafe service name is refused, otherwise
/// the status command is run.
pub fn plan_service_status(service: &str) -> (r: ServiceStatusPlan)
    ensures
        service@.len() == 0 ==> (r matches ServiceStatusPlan::Reject(m) && m@
            == "缺少 service 参数"@),
        service@.len() > 0 && !valid_unit_name(service@) ==> (r matches ServiceStatusPlan::Reject(m)
            && m@ == "service 参数含非法字符"@),
        service@.len() > 0 && valid_unit_name(service@) ==> (r matches ServiceStatusPlan::Run(c)
            && c@ == service_status_text(service@)),
{
    let c = chars_of(service);
    if c.len() == 0 {
        return ServiceStatusPlan::Reject(string_of(chars_of("缺少 service 参数").as_slice()));
    }
    if !is_valid_unit_name(service) {
        return ServiceStatusPlan::Reject(string_of(chars_of("service 参数含非法字符").as_slice()));
    }
    ServiceStatusPlan::Run(service_status_command(service))
}

} // verus!
