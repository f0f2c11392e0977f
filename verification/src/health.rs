//! Health of forwarding rules and of unmanaged portproxy entries, from the
//! portproxy table and the outcome of a TCP connection to the target.
use vstd::prelude::*;
use crate::model::{
    ForwardRule, ForwardRuleView, HealthStatus, HealthStatusView, PortproxyEntry,
    PortproxyEntryView, entries_view,
};
use crate::text::{append_chars, chars_of, chars_of_string, str_eq, string_from_chars};

verus! {

/// A portproxy entry carries a rule: same ports and target, and the same
/// listen address, one of the two listening on every address.
pub open spec fn carries(e: PortproxyEntryView, r: ForwardRuleView) -> bool {
    &&& e.listen_port == r.listen_port
    &&& (e.listen_address == r.listen_address || e.listen_address == "0.0.0.0"@
        || r.listen_address == "0.0.0.0"@)
    &&& e.connect_port == r.connect_port
    &&& e.connect_address == r.connect_address
}

/// Some entry of the portproxy table carries the rule.
pub open spec fn rule_in_table(r: ForwardRuleView, es: Seq<PortproxyEntryView>) -> bool {
    exists|i: int| 0 <= i < es.len() && #[trigger] carries(es[i], r)
}

/// The health of a target from the outcome of a connection to it.
pub open spec fn target_health(target: Result<(), Seq<char>>) -> HealthStatusView {
    match target {
        Ok(()) => HealthStatusView::Healthy,
        Err(e) => HealthStatusView::TargetUnreachable(e),
    }
}

/// The health of a rule: only configured when the table does not carry it,
/// otherwise as its target answers.
pub open spec fn rule_health(
    r: ForwardRuleView,
    es: Seq<PortproxyEntryView>,
    target: Result<(), Seq<char>>,
) -> HealthStatusView {
    if rule_in_table(r, es) {
        target_health(target)
    } else {
        HealthStatusView::MetadataOnly
    }
}

pub open spec fn outcome_view(t: Result<(), String>) -> Result<(), Seq<char>> {
    match t {
        Ok(()) => Ok(()),
        Err(e) => Err(e@),
    }
}

fn entry_carries(e: &PortproxyEntry, rule: &ForwardRule) -> (r: bool)
    ensures
        r == carries(e@, rule@),
{
    e.listen_port == rule.listen_port && (e.listen_address == rule.listen_address || str_eq(
        &chars_of_string(&e.listen_address),
        "0.0.0.0",
    ) || str_eq(&chars_of_string(&rule.listen_address), "0.0.0.0"))
        && e.connect_port == rule.connect_port && e.connect_address == rule.connect_address
}

/// Whether some entry of the portproxy table carries the rule.
pub fn proxy_exists(rule: &ForwardRule, proxy_entries: &[PortproxyEntry]) -> (r: bool)
    ensures
        r == rule_in_table(rule@, entries_view(proxy_entries@)),
{
    let ghost es = entries_view(proxy_entries@);
    let mut i: usize = 0;
    while i < proxy_entries.len()
        invariant
            i <= proxy_entries.len(),
            es == entries_view(proxy_entries@),
            forall|j: int| 0 <= j < i ==> !carries(es[j], rule@),
        decreases proxy_entries.len() - i,
    {
        if entry_carries(&proxy_entries[i], rule) {
            assert(carries(es[i as int], rule@));
            return true;
        }
        i += 1;
    }
    false
}

/// The health of a rule, given the outcome of a TCP connection to its
/// target: metadata only when the portproxy table does not carry it,
/// otherwise healthy or unreachable as the connection went.
pub fn check_rule(rule: &ForwardRule, proxy_entries: &[PortproxyEntry], target: Result<(), String>) -> (r:
    HealthStatus)
    ensures
        r@ == rule_health(rule@, entries_view(proxy_entries@), outcome_view(target)),
{
    let exists = proxy_exists(rule, proxy_entries);
    match (exists, target) {
        (true, Ok(())) => HealthStatus::Healthy,
        (true, Err(e)) => HealthStatus::TargetUnreachable(e),
        (false, _) => HealthStatus::MetadataOnly,
    }
}

/// The health of an unmanaged entry, given the outcome of a TCP connection
/// to its target.
pub fn check_orphan(target: Result<(), String>) -> (r: HealthStatus)
    ensures
        r@ == target_health(outcome_view(target)),
{
    match target {
        Ok(()) => HealthStatus::Healthy,
        Err(e) => HealthStatus::TargetUnreachable(e),
    }
}

/// Why a TCP connection to a target failed, as far as the health check
/// tells the cases apart.
#[derive(Debug, Clone, Copy, PartialEq, Eq, Structural)]
pub enum ConnectFailure {
    TimedOut,
    ConnectionRefused,
    ConnectionReset,
    HostUnreachable,
    NetworkUnreachable,
    Other,
}

/// The short name of a connection failure.
pub open spec fn failure_name(kind: ConnectFailure) -> Seq<char> {
    match kind {
        ConnectFailure::TimedOut => "timeout"@,
        ConnectFailure::ConnectionRefused => "connection refused"@,
        ConnectFailure::ConnectionReset => "connection reset"@,
        ConnectFailure::HostUnreachable => "host unreachable"@,
        ConnectFailure::NetworkUnreachable => "network unreachable"@,
        ConnectFailure::Other => "unreachable"@,
    }
}

/// The reason shown for an unreachable target: the failure's short name,
/// a colon, and the system's own description.
pub fn connect_error_message(kind: ConnectFailure, detail: &str) -> (r: String)
    ensures
        r@ == failure_name(kind) + ": "@ + detail@,
{
    let name = match kind {
        ConnectFailure::TimedOut => "timeout",
        ConnectFailure::ConnectionRefused => "connection refused",
        ConnectFailure::ConnectionReset => "connection reset",
        ConnectFailure::HostUnreachable => "host unreachable",
        ConnectFailure::NetworkUnreachable => "network unreachable",
        ConnectFailure::Other => "unreachable",
    };
    let mut m = chars_of(name);
    append_chars(&mut m, &chars_of(": "));
    append_chars(&mut m, &chars_of(detail));
    string_from_chars(&m)
}

/// A rule counts as in the table (and then its health is that of its
/// target) exactly when some entry has its listen port, a listen address
/// equal to its own or with one of the two listening on every address
/// (`0.0.0.0`), its target address and its target port; otherwise the rule
/// is only configured.
pub proof fn rule_health_needs_an_entry_with_the_same_forwarding(
    r: ForwardRuleView,
    es: Seq<PortproxyEntryView>,
    t: Result<(), Seq<char>>,
)
    ensures
        rule_health(r, es, t) == (if exists|i: int|
            #![trigger es[i]]
            0 <= i < es.len() && es[i].listen_port == r.listen_port && (es[i].listen_address
                == r.listen_address || es[i].listen_address == "0.0.0.0"@ || r.listen_address
                == "0.0.0.0"@) && es[i].connect_address == r.connect_address && es[i].connect_port
                == r.connect_port {
            match t {
                Ok(()) => HealthStatusView::Healthy,
                Err(e) => HealthStatusView::TargetUnreachable(e),
            }
        } else {
            HealthStatusView::MetadataOnly
        }),
{
    if rule_in_table(r, es) {
        let i = choose|i: int| 0 <= i < es.len() && #[trigger] carries(es[i], r);
        assert(es[i].listen_port == r.listen_port);
    }
    if exists|i: int|
        #![trigger es[i]]
        0 <= i < es.len() && es[i].listen_port == r.listen_port && (es[i].listen_address
            == r.listen_address || es[i].listen_address == "0.0.0.0"@ || r.listen_address
            == "0.0.0.0"@) && es[i].connect_address == r.connect_address && es[i].connect_port
            == r.connect_port {
        let i = choose|i: int|
            #![trigger es[i]]
            0 <= i < es.len() && es[i].listen_port == r.listen_port && (es[i].listen_address
                == r.listen_address || es[i].listen_address == "0.0.0.0"@ || r.listen_address
                == "0.0.0.0"@) && es[i].connect_address == r.connect_address && es[i].connect_port
                == r.connect_port;
        assert(carries(es[i], r));
    }
}

} // verus!
