//! The forwarding-rules panel: managed rules, the portproxy entries that no
//! rule manages (orphans), their adoption, the add / edit / delete form and
//! the health shown for each row.
use std::collections::HashMap;
use vstd::prelude::*;
use crate::config::Config;
use crate::health::{check_orphan, check_rule, outcome_view, rule_health, target_health};
use crate::model::{
    ForwardRule, ForwardRuleView, HealthStatus, HealthStatusView, OrphanKey, PortproxyEntry,
    PortproxyEntryView, entries_view, rules_view,
};
use crate::text::{
    append_chars, chars_of, chars_of_string, decimal, decimal_chars, parse_u16, parse_unsigned,
    string_from_chars, string_of, trim, trim_seq, lemma_parse_decimal,
};

verus! {

broadcast use vstd::std_specs::hash::group_hash_axioms;

// ---------------------------------------------------------------------------
// Orphans and adoption
// ---------------------------------------------------------------------------

/// A rule manages an entry: same listen address and port, same target.
pub open spec fn manages(r: ForwardRuleView, e: PortproxyEntryView) -> bool {
    &&& r.listen_port == e.listen_port
    &&& r.listen_address == e.listen_address
    &&& r.connect_address == e.connect_address
    &&& r.connect_port == e.connect_port
}

/// No rule manages the entry.
pub open spec fn is_orphan(rules: Seq<ForwardRuleView>, e: PortproxyEntryView) -> bool {
    forall|i: int| 0 <= i < rules.len() ==> !#[trigger] manages(rules[i], e)
}

/// The entries that no rule manages, in table order.
pub open spec fn orphans(rules: Seq<ForwardRuleView>, es: Seq<PortproxyEntryView>) -> Seq<
    PortproxyEntryView,
>
    decreases es.len(),
{
    if es.len() == 0 {
        es
    } else if is_orphan(rules, es.last()) {
        orphans(rules, es.drop_last()).push(es.last())
    } else {
        orphans(rules, es.drop_last())
    }
}

/// The note that adopted rules carry.
pub open spec fn adopted_note() -> Seq<char> {
    "Imported from existing Windows PortProxy rule"@
}

/// The rule that adopting an entry records.
pub open spec fn adopted_rule(e: PortproxyEntryView) -> ForwardRuleView {
    ForwardRuleView {
        name: "Adopted-"@ + decimal(e.listen_port as nat),
        notes: adopted_note(),
        listen_address: e.listen_address,
        listen_port: e.listen_port,
        connect_address: e.connect_address,
        connect_port: e.connect_port,
        managed: true,
    }
}

pub open spec fn adopted_rules(es: Seq<PortproxyEntryView>) -> Seq<ForwardRuleView> {
    es.map_values(|e: PortproxyEntryView| adopted_rule(e))
}

/// An entry is an orphan exactly when it is in the table and no rule
/// manages it.
pub proof fn lemma_orphans_members(
    rules: Seq<ForwardRuleView>,
    es: Seq<PortproxyEntryView>,
    e: PortproxyEntryView,
)
    ensures
        orphans(rules, es).contains(e) <==> (es.contains(e) && is_orphan(rules, e)),
    decreases es.len(),
{
    if es.len() > 0 {
        lemma_orphans_members(rules, es.drop_last(), e);
        assert(es =~= es.drop_last().push(es.last()));
        if es.contains(e) && e != es.last() {
            let j = choose|j: int| 0 <= j < es.len() && es[j] == e;
            assert(es.drop_last()[j] == e);
        }
        if es.drop_last().contains(e) {
            let j = choose|j: int| 0 <= j < es.drop_last().len() && es.drop_last()[j] == e;
            assert(es[j] == e);
        }
        if is_orphan(rules, es.last()) {
            let o = orphans(rules, es.drop_last());
            if o.push(es.last()).contains(e) && e != es.last() {
                let j = choose|j: int| 0 <= j < o.push(es.last()).len() && o.push(es.last())[j]
                    == e;
                assert(o[j] == e);
            }
            if o.contains(e) {
                let j = choose|j: int| 0 <= j < o.len() && o[j] == e;
                assert(o.push(es.last())[j] == e);
            }
            assert(o.push(es.last())[o.len() as int] == es.last());
        }
    }
}

/// An entry of the table is an orphan exactly when no rule has the same
/// listen port, listen address, target address and target port; an entry
/// that differs from every rule in any one of these is an orphan.
pub proof fn orphans_are_the_entries_no_rule_matches(
    rules: Seq<ForwardRuleView>,
    es: Seq<PortproxyEntryView>,
    e: PortproxyEntryView,
)
    ensures
        orphans(rules, es).contains(e) <==> (es.contains(e) && forall|i: int|
            #![trigger rules[i]]
            0 <= i < rules.len() ==> !(rules[i].listen_port == e.listen_port
                && rules[i].listen_address == e.listen_address && rules[i].connect_address
                == e.connect_address && rules[i].connect_port == e.connect_port)),
{
    lemma_orphans_members(rules, es, e);
    if is_orphan(rules, e) {
        assert forall|i: int|
            #![trigger rules[i]]
            0 <= i < rules.len() implies !(rules[i].listen_port == e.listen_port
                && rules[i].listen_address == e.listen_address && rules[i].connect_address
                == e.connect_address && rules[i].connect_port == e.connect_port) by {
            assert(!manages(rules[i], e));
        }
    }
    if forall|i: int|
        #![trigger rules[i]]
        0 <= i < rules.len() ==> !(rules[i].listen_port == e.listen_port
            && rules[i].listen_address == e.listen_address && rules[i].connect_address
            == e.connect_address && rules[i].connect_port == e.connect_port) {
        assert forall|i: int| 0 <= i < rules.len() implies !#[trigger] manages(rules[i], e) by {
            assert(rules[i] == rules[i]);
        }
    }
}

/// The rule recorded by adopting an entry manages that entry, so the entry
/// is no orphan any more.
pub proof fn adopted_entry_is_managed(rules: Seq<ForwardRuleView>, e: PortproxyEntryView)
    ensures
        manages(adopted_rule(e), e),
        !is_orphan(rules.push(adopted_rule(e)), e),
{
    assert(rules.push(adopted_rule(e))[rules.len() as int] == adopted_rule(e));
    assert(manages(rules.push(adopted_rule(e))[rules.len() as int], e));
}

/// Adopting all orphans leaves none: every entry of the table is then
/// managed by a rule, so a second adoption finds nothing to adopt.
pub proof fn adopt_all_leaves_no_orphans(rules: Seq<ForwardRuleView>, es: Seq<PortproxyEntryView>)
    ensures
        orphans(rules + adopted_rules(orphans(rules, es)), es).len() == 0,
{
    let o = orphans(rules, es);
    let all = rules + adopted_rules(o);
    assert forall|e: PortproxyEntryView| es.contains(e) implies !is_orphan(all, e) by {
        if is_orphan(rules, e) {
            lemma_orphans_members(rules, es, e);
            let j = choose|j: int| 0 <= j < o.len() && o[j] == e;
            assert(all[rules.len() + j] == adopted_rule(o[j]));
            assert(manages(all[rules.len() + j], e));
        } else {
            let i = choose|i: int| 0 <= i < rules.len() && manages(rules[i], e);
            assert(all[i] == rules[i]);
        }
    }
    if orphans(all, es).len() > 0 {
        let e = orphans(all, es)[0];
        assert(orphans(all, es).contains(e));
        lemma_orphans_members(all, es, e);
    }
}

fn rule_manages(r: &ForwardRule, e: &PortproxyEntry) -> (b: bool)
    ensures
        b == manages(r@, e@),
{
    r.listen_port == e.listen_port && r.listen_address == e.listen_address && r.connect_address
        == e.connect_address && r.connect_port == e.connect_port
}

/// Whether no rule manages the entry.
pub fn is_orphan_entry(rules: &Vec<ForwardRule>, e: &PortproxyEntry) -> (b: bool)
    ensures
        b == is_orphan(rules_view(rules@), e@),
{
    let ghost rs = rules_view(rules@);
    let mut i: usize = 0;
    while i < rules.len()
        invariant
            i <= rules.len(),
            rs == rules_view(rules@),
            forall|j: int| 0 <= j < i ==> !#[trigger] manages(rs[j], e@),
        decreases rules.len() - i,
    {
        if rule_manages(&rules[i], e) {
            assert(manages(rs[i as int], e@));
            return false;
        }
        i += 1;
    }
    true
}

/// The portproxy entries that no rule manages, copied, in table order.
pub fn orphans_of(rules: &Vec<ForwardRule>, entries: &Vec<PortproxyEntry>) -> (r: Vec<
    PortproxyEntry,
>)
    ensures
        entries_view(r@) == orphans(rules_view(rules@), entries_view(entries@)),
{
    let ghost rs = rules_view(rules@);
    let ghost es = entries_view(entries@);
    let mut out: Vec<PortproxyEntry> = Vec::new();
    let mut k: usize = 0;
    assert(es.take(0) =~= Seq::<PortproxyEntryView>::empty());
    while k < entries.len()
        invariant
            k <= entries.len(),
            rs == rules_view(rules@),
            es == entries_view(entries@),
            entries_view(out@) == orphans(rs, es.take(k as int)),
        decreases entries.len() - k,
    {
        assert(es.take(k + 1).drop_last() =~= es.take(k as int));
        assert(es.take(k + 1).last() == entries@[k as int]@);
        if is_orphan_entry(rules, &entries[k]) {
            let ghost before = entries_view(out@);
            out.push(entries[k].duplicate());
            assert(entries_view(out@) =~= before.push(entries@[k as int]@));
        }
        k += 1;
    }
    assert(es.take(entries.len() as int) =~= es);
    out
}

fn adopted_from(e: &PortproxyEntry) -> (r: ForwardRule)
    ensures
        r@ == adopted_rule(e@),
{
    let mut name = chars_of("Adopted-");
    append_chars(&mut name, &decimal_chars(e.listen_port as u64));
    ForwardRule {
        name: string_from_chars(&name),
        notes: string_of("Imported from existing Windows PortProxy rule"),
        listen_address: e.listen_address.clone(),
        listen_port: e.listen_port,
        connect_address: e.connect_address.clone(),
        connect_port: e.connect_port,
        managed: true,
    }
}

// ---------------------------------------------------------------------------
// Health bookkeeping
// ---------------------------------------------------------------------------

/// Every rule index below `n` marked as not checked.
pub open spec fn not_checked_upto(n: nat) -> Map<usize, HealthStatus> {
    Map::new(|i: usize| i < n, |i: usize| HealthStatus::NotChecked)
}

fn not_checked_map(n: usize) -> (m: HashMap<usize, HealthStatus>)
    ensures
        m@ == not_checked_upto(n as nat),
{
    let mut m: HashMap<usize, HealthStatus> = HashMap::new();
    let mut i: usize = 0;
    while i < n
        invariant
            i <= n,
            m@ == not_checked_upto(i as nat),
        decreases n - i,
    {
        m.insert(i, HealthStatus::NotChecked);
        assert(m@ =~= not_checked_upto((i + 1) as nat));
        i += 1;
    }
    m
}

pub open spec fn pairs_view(v: Seq<(OrphanKey, HealthStatus)>) -> Seq<
    (PortproxyEntryView, HealthStatusView),
> {
    v.map_values(|p: (OrphanKey, HealthStatus)| (p.0@, p.1@))
}

/// The state last recorded for an entry (later records win).
pub open spec fn last_status(v: Seq<(PortproxyEntryView, HealthStatusView)>, k: PortproxyEntryView) -> Option<
    HealthStatusView,
>
    decreases v.len(),
{
    if v.len() == 0 {
        None
    } else if v.last().0 == k {
        Some(v.last().1)
    } else {
        last_status(v.drop_last(), k)
    }
}

/// The records for other entries than `k`, in order.
pub open spec fn without_key(v: Seq<(PortproxyEntryView, HealthStatusView)>, k: PortproxyEntryView) -> Seq<
    (PortproxyEntryView, HealthStatusView),
>
    decreases v.len(),
{
    if v.len() == 0 {
        v
    } else if v.last().0 == k {
        without_key(v.drop_last(), k)
    } else {
        without_key(v.drop_last(), k).push(v.last())
    }
}

/// The orphan records read as a map from entry to state: a later record
/// for the same entry replaces an earlier one, as an insertion into a map
/// does.
pub open spec fn status_map(v: Seq<(PortproxyEntryView, HealthStatusView)>) -> Map<
    PortproxyEntryView,
    HealthStatusView,
>
    decreases v.len(),
{
    if v.len() == 0 {
        Map::empty()
    } else {
        status_map(v.drop_last()).insert(v.last().0, v.last().1)
    }
}

/// The state last recorded for an entry is its state in the map view.
pub proof fn lemma_last_status_map(v: Seq<(PortproxyEntryView, HealthStatusView)>, k: PortproxyEntryView)
    ensures
        last_status(v, k) == (if status_map(v).contains_key(k) {
            Some(status_map(v)[k])
        } else {
            None::<HealthStatusView>
        }),
    decreases v.len(),
{
    if v.len() > 0 {
        lemma_last_status_map(v.drop_last(), k);
    }
}

/// Dropping the records of an entry removes it from the map view.
pub proof fn lemma_without_key_map(v: Seq<(PortproxyEntryView, HealthStatusView)>, k: PortproxyEntryView)
    ensures
        status_map(without_key(v, k)) == status_map(v).remove(k),
    decreases v.len(),
{
    if v.len() > 0 {
        lemma_without_key_map(v.drop_last(), k);
        let w = without_key(v.drop_last(), k);
        if v.last().0 != k {
            assert(w.push(v.last()).drop_last() =~= w);
        }
        assert(status_map(without_key(v, k)) =~= status_map(v).remove(k));
    }
}

/// What a background health check found: the state of each rule by index,
/// and that of each orphan.
pub struct HealthCheckResult {
    pub health_map: HashMap<usize, HealthStatus>,
    pub orphan_health: Vec<(OrphanKey, HealthStatus)>,
}

fn copy_outcome(t: &Result<(), String>) -> (r: Result<(), String>)
    ensures
        outcome_view(r) == outcome_view(*t),
{
    match t {
        Ok(()) => Ok(()),
        Err(e) => Err(e.clone()),
    }
}

/// The states the orphans get from the outcomes of connections to their
/// targets, in order.
pub open spec fn orphan_pairs(os: Seq<PortproxyEntryView>, targets: Seq<Result<(), String>>) -> Seq<
    (PortproxyEntryView, HealthStatusView),
> {
    Seq::new(os.len(), |j: int| (os[j], target_health(outcome_view(targets[j]))))
}

/// Gathers a health check: `rule_targets[i]` is the outcome of connecting to
/// the target of rule `i`, and `orphan_targets[j]` that of connecting to the
/// target of orphan `j`.
pub fn health_results(
    rules: &Vec<ForwardRule>,
    entries: &Vec<PortproxyEntry>,
    rule_targets: &Vec<Result<(), String>>,
    orphan_targets: &Vec<Result<(), String>>,
) -> (r: HealthCheckResult)
    requires
        rule_targets.len() == rules.len(),
        orphan_targets.len() == orphans(rules_view(rules@), entries_view(entries@)).len(),
    ensures
        r.health_map@.dom() == Set::new(|i: usize| i < rules.len()),
        forall|i: usize|
            i < rules.len() ==> (#[trigger] r.health_map@[i])@ == rule_health(
                rules@[i as int]@,
                entries_view(entries@),
                outcome_view(rule_targets@[i as int]),
            ),
        pairs_view(r.orphan_health@) == orphan_pairs(
            orphans(rules_view(rules@), entries_view(entries@)),
            orphan_targets@,
        ),
{
    let mut health_map: HashMap<usize, HealthStatus> = HashMap::new();
    let mut i: usize = 0;
    while i < rules.len()
        invariant
            i <= rules.len(),
            rule_targets.len() == rules.len(),
            health_map@.dom() == Set::new(|k: usize| k < i),
            forall|k: usize|
                k < i ==> (#[trigger] health_map@[k])@ == rule_health(
                    rules@[k as int]@,
                    entries_view(entries@),
                    outcome_view(rule_targets@[k as int]),
                ),
        decreases rules.len() - i,
    {
        let s = check_rule(&rules[i], entries.as_slice(), copy_outcome(&rule_targets[i]));
        health_map.insert(i, s);
        assert(health_map@.dom() =~= Set::new(|k: usize| k < i + 1));
        i += 1;
    }
    let os = orphans_of(rules, entries);
    let ghost ov = entries_view(os@);
    let mut orphan_health: Vec<(OrphanKey, HealthStatus)> = Vec::new();
    let mut j: usize = 0;
    while j < os.len()
        invariant
            j <= os.len(),
            ov == entries_view(os@),
            orphan_targets.len() == os.len(),
            pairs_view(orphan_health@) == orphan_pairs(ov, orphan_targets@).take(j as int),
        decreases os.len() - j,
    {
        let key = OrphanKey::from_entry(&os[j]);
        let s = check_orphan(copy_outcome(&orphan_targets[j]));
        let ghost before = pairs_view(orphan_health@);
        let ghost p = (key@, s@);
        orphan_health.push((key, s));
        assert(pairs_view(orphan_health@) =~= before.push(p));
        assert(orphan_pairs(ov, orphan_targets@).take(j + 1) =~= orphan_pairs(
            ov,
            orphan_targets@,
        ).take(j as int).push(p));
        j += 1;
    }
    assert(orphan_pairs(ov, orphan_targets@).take(os.len() as int) =~= orphan_pairs(
        ov,
        orphan_targets@,
    ));
    HealthCheckResult { health_map, orphan_health }
}

// ---------------------------------------------------------------------------
// The add / edit form
// ---------------------------------------------------------------------------

/// Why a request from the rules panel was refused.
#[derive(Debug, Clone, Copy, PartialEq, Eq, Structural)]
pub enum RuleError {
    InvalidListenPort,
    InvalidConnectPort,
    ConnectAddrRequired,
    InvalidRuleIndex,
    InvalidOrphanIndex,
    /// Changing the system's portproxy table needs administrator rights.
    AdminRequired,
}

impl RuleError {
    /// The key of the message that explains the refusal.
    pub fn key(&self) -> (r: &str)
        ensures
            r@ == match self {
                RuleError::InvalidListenPort => "err.invalid_listen_port"@,
                RuleError::InvalidConnectPort => "err.invalid_connect_port"@,
                RuleError::ConnectAddrRequired => "err.connect_addr_required"@,
                RuleError::InvalidRuleIndex => "err.invalid_rule_index"@,
                RuleError::InvalidOrphanIndex => "err.invalid_orphan_index"@,
                RuleError::AdminRequired => "msg.admin_required"@,
            },
    {
        match self {
            RuleError::InvalidListenPort => "err.invalid_listen_port",
            RuleError::InvalidConnectPort => "err.invalid_connect_port",
            RuleError::ConnectAddrRequired => "err.connect_addr_required",
            RuleError::InvalidRuleIndex => "err.invalid_rule_index",
            RuleError::InvalidOrphanIndex => "err.invalid_orphan_index",
            RuleError::AdminRequired => "msg.admin_required",
        }
    }
}

/// A forwarding read from the form.
#[derive(Debug, Clone)]
pub struct RuleRequest {
    pub listen_port: u16,
    pub connect_address: String,
    pub connect_port: u16,
}

/// An edit read from the form: the rule to replace, the new forwarding, and
/// whether the system's portproxy entry must be replaced too, with the
/// listen port and address of the entry to delete.
#[derive(Debug, Clone)]
pub struct RuleUpdate {
    pub index: usize,
    pub request: RuleRequest,
    pub replaced_entry: Option<(u16, String)>,
}

/// What the form yields: the listen port and the connect port as `u16`
/// numbers and a non-empty, trimmed connect address, tested in that order.
pub open spec fn form_request(listen_port: Seq<char>, connect_address: Seq<char>, connect_port: Seq<char>) -> Result<
    (u16, Seq<char>, u16),
    RuleError,
> {
    match parse_unsigned(listen_port, 65535) {
        None => Err(RuleError::InvalidListenPort),
        Some(lp) => match parse_unsigned(connect_port, 65535) {
            None => Err(RuleError::InvalidConnectPort),
            Some(cp) => if trim_seq(connect_address).len() == 0 {
                Err(RuleError::ConnectAddrRequired)
            } else {
                Ok((lp as u16, trim_seq(connect_address), cp as u16))
            },
        },
    }
}

pub open spec fn request_view(r: RuleRequest) -> (u16, Seq<char>, u16) {
    (r.listen_port, r.connect_address@, r.connect_port)
}

/// The name a rule gets from the form: the trimmed name, or `Rule-<port>`
/// when it is blank.
pub open spec fn form_rule_name(name: Seq<char>, listen_port: u16) -> Seq<char> {
    if trim_seq(name).len() == 0 {
        "Rule-"@ + decimal(listen_port as nat)
    } else {
        trim_seq(name)
    }
}

/// The managed rule that the form describes; it listens on every address.
pub open spec fn form_rule(name: Seq<char>, notes: Seq<char>, req: (u16, Seq<char>, u16)) -> ForwardRuleView {
    ForwardRuleView {
        name: form_rule_name(name, req.0),
        notes: trim_seq(notes),
        listen_address: "0.0.0.0"@,
        listen_port: req.0,
        connect_address: req.1,
        connect_port: req.2,
        managed: true,
    }
}

/// Editing a rule without touching the form changes nothing: the form that
/// `begin_edit` fills from a rule reads back, through `update_request`, as
/// that rule's forwarding, the system entry needs no replacement, and the
/// rule that `update_rule` records is the rule itself. This holds for
/// managed rules that listen on every address, with a name, and with name,
/// notes and target already trimmed (a non-empty target).
pub proof fn edited_rule_reads_back(r: ForwardRuleView)
    requires
        r.listen_address == "0.0.0.0"@,
        r.managed,
        r.name.len() > 0,
        trim_seq(r.name) == r.name,
        trim_seq(r.notes) == r.notes,
        r.connect_address.len() > 0,
        trim_seq(r.connect_address) == r.connect_address,
    ensures
        form_request(decimal(r.listen_port as nat), r.connect_address, decimal(r.connect_port as nat))
            == Ok::<(u16, Seq<char>, u16), RuleError>(
            (r.listen_port, r.connect_address, r.connect_port),
        ),
        form_rule(r.name, r.notes, (r.listen_port, r.connect_address, r.connect_port)) == r,
{
    lemma_parse_decimal(r.listen_port as nat, 65535);
    lemma_parse_decimal(r.connect_port as nat, 65535);
}

// ---------------------------------------------------------------------------
// Operations: what the program is asked to run, and what it reports back
// ---------------------------------------------------------------------------

/// A `netsh interface portproxy` command that an operation needs run.
#[derive(Debug, Clone, PartialEq)]
pub enum RuleCommand {
    /// Add a forwarding from every local address on `listen_port`.
    Add { listen_port: u16, connect_address: String, connect_port: u16 },
    /// Delete the forwarding listening on `listen_address:listen_port`.
    Delete { listen_port: u16, listen_address: String },
}

/// Why an operation failed: the panel refused it, or a command or a save
/// failed with this message.
#[derive(Debug, Clone, PartialEq)]
pub enum RuleFailure {
    Refused(RuleError),
    Failed(String),
}

/// What the program is to do next for an operation of the panel.
#[derive(Debug, PartialEq)]
pub enum RuleAction {
    /// Run the command and hand its outcome to `netsh_done`.
    Run(RuleCommand),
    /// Save the configuration to `config_path` and hand the outcome to
    /// `save_done`.
    Save,
    /// The operation is over: its result (the number of rules adopted, 0
    /// for other operations) and whether the portproxy table is to be read
    /// again (`refresh_proxy`).
    Finish { result: Result<usize, RuleFailure>, refresh: bool },
}

/// The operation under way and the outcome it waits for.
#[derive(Debug, Clone)]
pub enum PendingStep {
    /// Adding a rule: the system entry is being added.
    AddEntry(RuleRequest),
    /// Adding a rule: the rule is recorded, the configuration being saved.
    SaveAdded,
    /// Editing a rule: the old system entry is being deleted.
    DeleteOldEntry(RuleUpdate),
    /// Editing a rule: the new system entry is being added.
    AddNewEntry(RuleUpdate),
    /// Editing a rule: the rule is replaced, the configuration being saved.
    SaveUpdated,
    /// Deleting rule `i`: its system entry is being deleted.
    DeleteEntry(usize),
    /// Deleting a rule: the rule is forgotten, the configuration being saved.
    SaveDeleted,
    /// Deleting an orphan: its system entry is being deleted.
    DeleteOrphanEntry,
    /// Adopting an orphan: its rule is recorded, the configuration being saved.
    SaveAdoption(PortproxyEntry),
    /// Adopting all orphans: this many rules are recorded, the
    /// configuration being saved.
    SaveAdoptions(usize),
}

/// The operation ends refused, with nothing changed and no refresh.
pub open spec fn refused(e: RuleError) -> RuleAction {
    RuleAction::Finish { result: Err(RuleFailure::Refused(e)), refresh: false }
}

/// The operation ends successfully.
pub open spec fn finished(n: usize, refresh: bool) -> RuleAction {
    RuleAction::Finish { result: Ok(n), refresh }
}

/// The operation ends failed with message `m`.
pub open spec fn failed_with(a: RuleAction, m: Seq<char>, refresh: bool) -> bool {
    a matches RuleAction::Finish { result: Err(RuleFailure::Failed(x)), refresh: r } && x@ == m
        && r == refresh
}

/// The message when the system was changed but the configuration could
/// not be saved.
pub open spec fn save_failed_after_command(e: Seq<char>) -> Seq<char> {
    "netsh succeeded but config save failed: "@ + e
}

/// The system entry of a rule must be replaced by an edit when the rule
/// listens on a specific address or when its port or target change.
pub open spec fn replaces_entry(r: ForwardRuleView, q: (u16, Seq<char>, u16)) -> bool {
    r.listen_address != "0.0.0.0"@ || r.listen_port != q.0 || r.connect_address != q.1
        || r.connect_port != q.2
}

// ---------------------------------------------------------------------------
// The panel
// ---------------------------------------------------------------------------

/// The state of the forwarding-rules panel.
pub struct RulesPanel {
    pub config: Config,
    pub config_path: String,
    pub proxy_entries: Vec<PortproxyEntry>,
    pub health_map: HashMap<usize, HealthStatus>,
    pub orphan_health: Vec<(OrphanKey, HealthStatus)>,
    pub status_message: String,
    pub is_admin: bool,
    pub health_check_running: bool,
    pub editing_rule_index: Option<usize>,
    pub add_listen_port: String,
    pub add_connect_address: String,
    pub add_connect_port: String,
    pub add_name: String,
    pub add_notes: String,
    /// The operation under way, if any.
    pub pending: Option<PendingStep>,
}

/// The edit the form describes for the rule being edited: its index and
/// the forwarding read from the form, or why there is none.
pub open spec fn edit_request(p: RulesPanel) -> Result<(usize, (u16, Seq<char>, u16)), RuleError> {
    match p.editing_rule_index {
        None => Err(RuleError::InvalidRuleIndex),
        Some(i) => if i >= p.config.rules.len() {
            Err(RuleError::InvalidRuleIndex)
        } else {
            match form_request(p.add_listen_port@, p.add_connect_address@, p.add_connect_port@) {
                Err(e) => Err(e),
                Ok(q) => Ok((i, q)),
            }
        },
    }
}

impl RulesPanel {
    /// The orphans of the panel: the table's entries that no rule manages.
    pub open spec fn orphan_view(&self) -> Seq<PortproxyEntryView> {
        orphans(rules_view(self.config.rules@), entries_view(self.proxy_entries@))
    }

    /// The form is blank.
    pub open spec fn form_is_clear(&self) -> bool {
        &&& self.add_listen_port@.len() == 0
        &&& self.add_connect_address@.len() == 0
        &&& self.add_connect_port@.len() == 0
        &&& self.add_name@.len() == 0
        &&& self.add_notes@.len() == 0
    }

    /// A panel with no portproxy entries read yet.
    pub fn new(config: Config, config_path: String, is_admin: bool) -> (r: Self)
        ensures
            r.config@ == config@,
            r.config_path@ == config_path@,
            r.is_admin == is_admin,
            r.proxy_entries@.len() == 0,
            r.health_map@ == Map::<usize, HealthStatus>::empty(),
            r.orphan_health@.len() == 0,
            r.status_message@.len() == 0,
            !r.health_check_running,
            r.editing_rule_index is None,
            r.form_is_clear(),
            r.pending is None,
    {
        RulesPanel {
            config,
            config_path,
            proxy_entries: Vec::new(),
            health_map: HashMap::new(),
            orphan_health: Vec::new(),
            status_message: String::new(),
            is_admin,
            health_check_running: false,
            editing_rule_index: None,
            add_listen_port: String::new(),
            add_connect_address: String::new(),
            add_connect_port: String::new(),
            add_name: String::new(),
            add_notes: String::new(),
            pending: None,
        }
    }

    /// Takes a fresh reading of the portproxy table: every rule is marked
    /// not checked and the orphans' states are forgotten.
    pub fn apply_proxy_entries(&mut self, entries: Vec<PortproxyEntry>)
        ensures
            *final(self) == (RulesPanel { proxy_entries: final(self).proxy_entries, health_map: final(self).health_map, orphan_health: final(self).orphan_health, ..*old(self) }),
            final(self).proxy_entries@ == entries@,
            final(self).config@ == old(self).config@,
            final(self).health_map@ == not_checked_upto(old(self).config.rules@.len()),
            final(self).orphan_health@.len() == 0,
            final(self).editing_rule_index == old(self).editing_rule_index,
            final(self).status_message@ == old(self).status_message@,
    {
        self.proxy_entries = entries;
        self.health_map = not_checked_map(self.config.rules.len());
        self.orphan_health = Vec::new();
    }

    /// Applies the outcome of reading the portproxy table: the entries, or
    /// a message saying why they could not be read.
    pub fn refresh_proxy(&mut self, result: Result<Vec<PortproxyEntry>, String>)
        ensures
            result is Ok ==> *final(self) == (RulesPanel { proxy_entries: final(self).proxy_entries, health_map: final(self).health_map, orphan_health: final(self).orphan_health, ..*old(self) }),
            result is Err ==> *final(self) == (RulesPanel { status_message: final(self).status_message, ..*old(self) }),
            match result {
                Ok(entries) => final(self).proxy_entries@ == entries@ && final(self).health_map@
                    == not_checked_upto(old(self).config.rules@.len()) && final(self).orphan_health@.len() == 0,
                Err(e) => final(self).status_message@ == "Failed to read rules: "@ + e@
                    && final(self).proxy_entries@ == old(self).proxy_entries@,
            },
            final(self).config@ == old(self).config@,
    {
        match result {
            Ok(entries) => self.apply_proxy_entries(entries),
            Err(e) => {
                let mut m = chars_of("Failed to read rules: ");
                append_chars(&mut m, &chars_of_string(&e));
                self.status_message = string_from_chars(&m);
            },
        }
    }

    /// Marks a background health check as started; false when one is
    /// running already.
    pub fn start_health_check(&mut self) -> (started: bool)
        ensures
            *final(self) == (RulesPanel { health_check_running: true, ..*old(self) }),
            started == !old(self).health_check_running,
            final(self).health_check_running,
            final(self).config@ == old(self).config@,
            final(self).proxy_entries@ == old(self).proxy_entries@,
    {
        if self.health_check_running {
            return false;
        }
        self.health_check_running = true;
        true
    }

    /// Takes in what a background health check found.
    pub fn apply_health_results(&mut self, result: HealthCheckResult)
        ensures
            *final(self) == (RulesPanel { health_map: final(self).health_map, orphan_health: final(self).orphan_health, health_check_running: false, ..*old(self) }),
            final(self).health_map@ == result.health_map@,
            final(self).orphan_health@ == result.orphan_health@,
            !final(self).health_check_running,
            final(self).config@ == old(self).config@,
            final(self).proxy_entries@ == old(self).proxy_entries@,
    {
        self.health_map = result.health_map;
        self.orphan_health = result.orphan_health;
        self.health_check_running = false;
    }

    /// The health shown for rule `i`: not checked when nothing is recorded.
    pub fn rule_status(&self, i: usize) -> (r: HealthStatus)
        ensures
            r@ == (if self.health_map@.contains_key(i) {
                self.health_map@[i]@
            } else {
                HealthStatusView::NotChecked
            }),
    {
        match self.health_map.get(&i) {
            Some(s) => s.duplicate(),
            None => HealthStatus::NotChecked,
        }
    }

    /// The health shown for an orphan: not checked when nothing is recorded.
    pub fn orphan_status(&self, e: &PortproxyEntry) -> (r: HealthStatus)
        ensures
            r@ == match last_status(pairs_view(self.orphan_health@), e@) {
                Some(s) => s,
                None => HealthStatusView::NotChecked,
            },
            r@ == (if status_map(pairs_view(self.orphan_health@)).contains_key(e@) {
                status_map(pairs_view(self.orphan_health@))[e@]
            } else {
                HealthStatusView::NotChecked
            }),
    {
        let ghost pv = pairs_view(self.orphan_health@);
        proof {
            lemma_last_status_map(pv, e@);
        }
        let mut k = self.orphan_health.len();
        assert(pv.take(k as int) =~= pv);
        while k > 0
            invariant
                k <= self.orphan_health.len(),
                pv == pairs_view(self.orphan_health@),
                last_status(pv, e@) == last_status(pv.take(k as int), e@),
                last_status(pv, e@) == (if status_map(pv).contains_key(e@) {
                    Some(status_map(pv)[e@])
                } else {
                    None::<HealthStatusView>
                }),
            decreases k,
        {
            assert(pv.take(k as int).drop_last() =~= pv.take(k - 1));
            assert(pv.take(k as int).last() == pv[k - 1]);
            let key = &self.orphan_health[k - 1].0;
            if key.listen_port == e.listen_port && key.listen_address == e.listen_address
                && key.connect_address == e.connect_address && key.connect_port
                == e.connect_port {
                return self.orphan_health[k - 1].1.duplicate();
            }
            k -= 1;
        }
        HealthStatus::NotChecked
    }

    /// The portproxy entries that no rule manages, in table order.
    pub fn orphan_entries(&self) -> (r: Vec<PortproxyEntry>)
        ensures
            entries_view(r@) == self.orphan_view(),
    {
        orphans_of(&self.config.rules, &self.proxy_entries)
    }

    /// Blanks the form.
    pub fn clear_form(&mut self)
        ensures
            *final(self) == (RulesPanel { add_listen_port: final(self).add_listen_port, add_connect_address: final(self).add_connect_address, add_connect_port: final(self).add_connect_port, add_name: final(self).add_name, add_notes: final(self).add_notes, ..*old(self) }),
            final(self).form_is_clear(),
            final(self).config@ == old(self).config@,
            final(self).proxy_entries@ == old(self).proxy_entries@,
            final(self).editing_rule_index == old(self).editing_rule_index,
            final(self).health_map@ == old(self).health_map@,
    {
        self.add_listen_port = String::new();
        self.add_connect_address = String::new();
        self.add_connect_port = String::new();
        self.add_name = String::new();
        self.add_notes = String::new();
    }

    /// Reads the forwarding that the form describes.
    pub fn read_rule_form(&self) -> (r: Result<RuleRequest, RuleError>)
        ensures
            match form_request(
                self.add_listen_port@,
                self.add_connect_address@,
                self.add_connect_port@,
            ) {
                Ok(q) => r matches Ok(x) && request_view(x) == q,
                Err(e) => r == Err::<RuleRequest, RuleError>(e),
            },
    {
        let lp = match parse_u16(&chars_of_string(&self.add_listen_port)) {
            Some(p) => p,
            None => return Err(RuleError::InvalidListenPort),
        };
        let cp = match parse_u16(&chars_of_string(&self.add_connect_port)) {
            Some(p) => p,
            None => return Err(RuleError::InvalidConnectPort),
        };
        let addr = trim(&chars_of_string(&self.add_connect_address));
        if addr.len() == 0 {
            return Err(RuleError::ConnectAddrRequired);
        }
        Ok(RuleRequest { listen_port: lp, connect_address: string_from_chars(&addr), connect_port: cp })
    }

    fn rule_from_form(&self, req: &RuleRequest) -> (r: ForwardRule)
        ensures
            r@ == form_rule(self.add_name@, self.add_notes@, request_view(*req)),
    {
        let name = trim(&chars_of_string(&self.add_name));
        let name = if name.len() == 0 {
            let mut n = chars_of("Rule-");
            append_chars(&mut n, &decimal_chars(req.listen_port as u64));
            n
        } else {
            name
        };
        let notes = trim(&chars_of_string(&self.add_notes));
        ForwardRule {
            name: string_from_chars(&name),
            notes: string_from_chars(&notes),
            listen_address: string_of("0.0.0.0"),
            listen_port: req.listen_port,
            connect_address: req.connect_address.clone(),
            connect_port: req.connect_port,
            managed: true,
        }
    }

    /// Records the rule that the form describes and blanks the form.
    fn record_added(&mut self, req: &RuleRequest)
        ensures
            *final(self) == (RulesPanel { config: Config { rules: final(self).config.rules, ..old(self).config }, add_listen_port: final(self).add_listen_port, add_connect_address: final(self).add_connect_address, add_connect_port: final(self).add_connect_port, add_name: final(self).add_name, add_notes: final(self).add_notes, ..*old(self) }),
            rules_view(final(self).config.rules@) == rules_view(old(self).config.rules@).push(
                form_rule(old(self).add_name@, old(self).add_notes@, request_view(*req)),
            ),
            final(self).form_is_clear(),
            final(self).proxy_entries@ == old(self).proxy_entries@,
            final(self).editing_rule_index == old(self).editing_rule_index,
    {
        let rule = self.rule_from_form(req);
        let ghost before = rules_view(self.config.rules@);
        let ghost rv = rule@;
        self.config.rules.push(rule);
        assert(rules_view(self.config.rules@) =~= before.push(rv));
        self.clear_form();
    }

    /// Reads the edit that the form describes for the rule being edited:
    /// the system's entry is replaced when the rule listened on a specific
    /// address or when its port or target change.
    pub fn update_request(&self) -> (r: Result<RuleUpdate, RuleError>)
        ensures
            match self.editing_rule_index {
                None => r == Err::<RuleUpdate, RuleError>(RuleError::InvalidRuleIndex),
                Some(idx) => if idx >= self.config.rules.len() {
                    r == Err::<RuleUpdate, RuleError>(RuleError::InvalidRuleIndex)
                } else {
                    match form_request(
                        self.add_listen_port@,
                        self.add_connect_address@,
                        self.add_connect_port@,
                    ) {
                        Err(e) => r == Err::<RuleUpdate, RuleError>(e),
                        Ok(q) => r matches Ok(u) && u.index == idx && request_view(u.request)
                            == q && {
                            let old = self.config.rules@[idx as int]@;
                            let changed = old.listen_address != "0.0.0.0"@ || old.listen_port
                                != q.0 || old.connect_address != q.1 || old.connect_port != q.2;
                            &&& changed ==> (u.replaced_entry matches Some((p, a)) && p
                                == old.listen_port && a@ == old.listen_address)
                            &&& !changed ==> u.replaced_entry is None
                        },
                    }
                },
            },
    {
        let idx = match self.editing_rule_index {
            Some(i) => i,
            None => return Err(RuleError::InvalidRuleIndex),
        };
        if idx >= self.config.rules.len() {
            return Err(RuleError::InvalidRuleIndex);
        }
        let req = match self.read_rule_form() {
            Ok(q) => q,
            Err(e) => return Err(e),
        };
        let old = &self.config.rules[idx];
        let changed = !crate::text::str_eq(&chars_of_string(&old.listen_address), "0.0.0.0")
            || old.listen_port != req.listen_port || old.connect_address != req.connect_address
            || old.connect_port != req.connect_port;
        let replaced_entry = if changed {
            Some((old.listen_port, old.listen_address.clone()))
        } else {
            None
        };
        Ok(RuleUpdate { index: idx, request: req, replaced_entry })
    }

    /// Puts the edited rule in place of rule `upd.index`.
    fn record_edited(&mut self, upd: &RuleUpdate)
        requires
            upd.index < old(self).config.rules.len(),
        ensures
            *final(self) == (RulesPanel { config: Config { rules: final(self).config.rules, ..old(self).config }, ..*old(self) }),
            rules_view(final(self).config.rules@) == rules_view(old(self).config.rules@).update(
                upd.index as int,
                form_rule(old(self).add_name@, old(self).add_notes@, request_view(upd.request)),
            ),
            final(self).proxy_entries@ == old(self).proxy_entries@,
            final(self).editing_rule_index == old(self).editing_rule_index,
            final(self).add_name@ == old(self).add_name@,
    {
        let rule = self.rule_from_form(&upd.request);
        let ghost before = rules_view(self.config.rules@);
        let ghost rv = rule@;
        self.config.rules.set(upd.index, rule);
        assert(rules_view(self.config.rules@) =~= before.update(upd.index as int, rv));
    }

    /// Ends editing: the form is blanked and no rule is being edited.
    pub fn finish_edit(&mut self)
        ensures
            *final(self) == (RulesPanel { add_listen_port: final(self).add_listen_port, add_connect_address: final(self).add_connect_address, add_connect_port: final(self).add_connect_port, add_name: final(self).add_name, add_notes: final(self).add_notes, editing_rule_index: None, ..*old(self) }),
            final(self).form_is_clear(),
            final(self).editing_rule_index is None,
            final(self).config@ == old(self).config@,
            final(self).proxy_entries@ == old(self).proxy_entries@,
    {
        self.clear_form();
        self.editing_rule_index = None;
    }

    /// Starts editing rule `i`: the form is filled with its values.
    pub fn begin_edit(&mut self, i: usize)
        ensures
            *final(self) == (RulesPanel { add_listen_port: final(self).add_listen_port, add_connect_address: final(self).add_connect_address, add_connect_port: final(self).add_connect_port, add_name: final(self).add_name, add_notes: final(self).add_notes, editing_rule_index: final(self).editing_rule_index, ..*old(self) }),
            i >= old(self).config.rules.len() ==> *final(self) == *old(self),
            i < old(self).config.rules.len() ==> {
                let r = old(self).config.rules@[i as int]@;
                &&& final(self).editing_rule_index == Some(i)
                &&& final(self).add_listen_port@ == decimal(r.listen_port as nat)
                &&& final(self).add_connect_address@ == r.connect_address
                &&& final(self).add_connect_port@ == decimal(r.connect_port as nat)
                &&& final(self).add_name@ == r.name
                &&& final(self).add_notes@ == r.notes
            },
            i >= old(self).config.rules.len() ==> final(self).editing_rule_index == old(self).editing_rule_index && final(self).add_name@ == old(self).add_name@,
            final(self).config@ == old(self).config@,
            final(self).proxy_entries@ == old(self).proxy_entries@,
    {
        if i < self.config.rules.len() {
            let lp = string_from_chars(&decimal_chars(self.config.rules[i].listen_port as u64));
            let ca = self.config.rules[i].connect_address.clone();
            let cp = string_from_chars(&decimal_chars(self.config.rules[i].connect_port as u64));
            let name = self.config.rules[i].name.clone();
            let notes = self.config.rules[i].notes.clone();
            self.add_listen_port = lp;
            self.add_connect_address = ca;
            self.add_connect_port = cp;
            self.add_name = name;
            self.add_notes = notes;
            self.editing_rule_index = Some(i);
        }
    }

    /// The listen port and address of the system entry to delete with rule
    /// `index`.
    fn delete_target(&self, index: usize) -> (r: Result<(u16, String), RuleError>)
        ensures
            index >= self.config.rules.len() ==> r == Err::<(u16, String), RuleError>(
                RuleError::InvalidRuleIndex,
            ),
            index < self.config.rules.len() ==> (r matches Ok((p, a)) && p
                == self.config.rules@[index as int].listen_port && a@
                == self.config.rules@[index as int].listen_address@),
    {
        if index >= self.config.rules.len() {
            return Err(RuleError::InvalidRuleIndex);
        }
        let rule = &self.config.rules[index];
        Ok((rule.listen_port, rule.listen_address.clone()))
    }

    /// Forgets rule `index`; editing of that rule stops.
    fn forget_rule(&mut self, index: usize)
        requires
            index < old(self).config.rules.len(),
        ensures
            *final(self) == (RulesPanel { config: Config { rules: final(self).config.rules, ..old(self).config }, add_listen_port: final(self).add_listen_port, add_connect_address: final(self).add_connect_address, add_connect_port: final(self).add_connect_port, add_name: final(self).add_name, add_notes: final(self).add_notes, editing_rule_index: final(self).editing_rule_index, ..*old(self) }),
            old(self).editing_rule_index != Some(index) ==> final(self).add_name == old(self).add_name && final(self).add_notes == old(self).add_notes && final(self).add_listen_port == old(self).add_listen_port && final(self).add_connect_port == old(self).add_connect_port && final(self).add_connect_address == old(self).add_connect_address,
            rules_view(final(self).config.rules@) == rules_view(old(self).config.rules@).remove(
                index as int,
            ),
            old(self).editing_rule_index == Some(index) ==> final(self).editing_rule_index is None
                && final(self).form_is_clear(),
            old(self).editing_rule_index != Some(index) ==> final(self).editing_rule_index == old(self).editing_rule_index,
            final(self).proxy_entries@ == old(self).proxy_entries@,
    {
        let ghost before = rules_view(self.config.rules@);
        self.config.rules.remove(index);
        assert(rules_view(self.config.rules@) =~= before.remove(index as int));
        if self.editing_rule_index == Some(index) {
            self.clear_form();
            self.editing_rule_index = None;
        }
    }

    /// The listen port and address of the system entry of orphan
    /// `orphan_index`.
    fn orphan_target(&self, orphan_index: usize) -> (r: Result<(u16, String), RuleError>)
        ensures
            orphan_index >= self.orphan_view().len() ==> r == Err::<(u16, String), RuleError>(
                RuleError::InvalidOrphanIndex,
            ),
            orphan_index < self.orphan_view().len() ==> (r matches Ok((p, a)) && p
                == self.orphan_view()[orphan_index as int].listen_port && a@
                == self.orphan_view()[orphan_index as int].listen_address),
    {
        let os = self.orphan_entries();
        if orphan_index >= os.len() {
            return Err(RuleError::InvalidOrphanIndex);
        }
        assert(entries_view(os@)[orphan_index as int] == os@[orphan_index as int]@);
        Ok((os[orphan_index].listen_port, os[orphan_index].listen_address.clone()))
    }

    /// Records a managed rule for orphan `orphan_index` (the system entry
    /// exists already) and returns the adopted entry.
    fn record_adoption(&mut self, orphan_index: usize) -> (r: Result<PortproxyEntry, RuleError>)
        ensures
            *final(self) == (RulesPanel { config: Config { rules: final(self).config.rules, ..old(self).config }, ..*old(self) }),
            orphan_index >= old(self).orphan_view().len() ==> r == Err::<PortproxyEntry, RuleError>(
                RuleError::InvalidOrphanIndex,
            ) && *final(self) == *old(self),
            orphan_index < old(self).orphan_view().len() ==> {
                let e = old(self).orphan_view()[orphan_index as int];
                &&& r matches Ok(x) && x@ == e
                &&& rules_view(final(self).config.rules@) == rules_view(
                    old(self).config.rules@,
                ).push(adopted_rule(e))
            },
    {
        let os = self.orphan_entries();
        if orphan_index >= os.len() {
            return Err(RuleError::InvalidOrphanIndex);
        }
        assert(entries_view(os@)[orphan_index as int] == os@[orphan_index as int]@);
        let entry = &os[orphan_index];
        let rule = adopted_from(entry);
        let ghost before = rules_view(self.config.rules@);
        let ghost rv = rule@;
        self.config.rules.push(rule);
        assert(rules_view(self.config.rules@) =~= before.push(rv));
        Ok(entry.duplicate())
    }

    /// After an adoption was saved: the newest rule (the adopted one) is
    /// marked not checked and the adopted entry's orphan state is forgotten.
    fn note_adoption(&mut self, e: &PortproxyEntry)
        requires
            old(self).config.rules.len() > 0,
        ensures
            *final(self) == (RulesPanel { health_map: final(self).health_map, orphan_health: final(self).orphan_health, ..*old(self) }),
            final(self).health_map@ == old(self).health_map@.insert(
                (old(self).config.rules@.len() - 1) as usize,
                HealthStatus::NotChecked,
            ),
            pairs_view(final(self).orphan_health@) == without_key(
                pairs_view(old(self).orphan_health@),
                e@,
            ),
            status_map(pairs_view(final(self).orphan_health@)) == status_map(
                pairs_view(old(self).orphan_health@),
            ).remove(e@),
    {
        let n = self.config.rules.len();
        self.health_map.insert(n - 1, HealthStatus::NotChecked);
        let kept = remove_key(&self.orphan_health, e);
        self.orphan_health = kept;
        proof {
            lemma_without_key_map(pairs_view(old(self).orphan_health@), e@);
        }
    }

    /// Records a rule for every orphan, in table order; returns how many.
    /// Afterwards the panel has no orphans.
    fn record_all_adoptions(&mut self) -> (count: usize)
        ensures
            *final(self) == (RulesPanel { config: Config { rules: final(self).config.rules, ..old(self).config }, ..*old(self) }),
            count == 0 ==> *final(self) == *old(self),
            count == old(self).orphan_view().len(),
            count == 0 ==> rules_view(final(self).config.rules@) == rules_view(
                old(self).config.rules@,
            ),
            count > 0 ==> rules_view(final(self).config.rules@) == rules_view(
                old(self).config.rules@,
            ) + adopted_rules(old(self).orphan_view()),
            final(self).orphan_view().len() == 0,
            final(self).proxy_entries@ == old(self).proxy_entries@,
    {
        let os = self.orphan_entries();
        let ghost ov = entries_view(os@);
        let ghost rules0 = rules_view(self.config.rules@);
        if os.len() == 0 {
            return 0;
        }
        let ghost s0 = *self;
        let mut k: usize = 0;
        while k < os.len()
            invariant
                k <= os.len(),
                *self == (RulesPanel {
                    config: Config { rules: self.config.rules, ..s0.config },
                    ..s0
                }),
                ov == entries_view(os@),
                ov == orphans(rules0, entries_view(self.proxy_entries@)),
                self.proxy_entries@ == old(self).proxy_entries@,
                rules_view(self.config.rules@) == rules0 + adopted_rules(ov.take(k as int)),
            decreases os.len() - k,
        {
            let rule = adopted_from(&os[k]);
            let ghost before = rules_view(self.config.rules@);
            let ghost rv = rule@;
            self.config.rules.push(rule);
            assert(rules_view(self.config.rules@) =~= before.push(rv));
            assert(ov.take(k + 1) =~= ov.take(k as int).push(ov[k as int]));
            assert(adopted_rules(ov.take(k + 1)) =~= adopted_rules(ov.take(k as int)).push(rv));
            k += 1;
        }
        assert(ov.take(os.len() as int) =~= ov);
        proof {
            adopt_all_leaves_no_orphans(rules0, entries_view(self.proxy_entries@));
        }
        os.len()
    }

    /// Every rule marked not checked and no orphan state kept, as after
    /// all orphans were adopted and saved.
    fn mark_all_not_checked(&mut self)
        ensures
            *final(self) == (RulesPanel { health_map: final(self).health_map, orphan_health: final(self).orphan_health, ..*old(self) }),
            final(self).health_map@ == not_checked_upto(old(self).config.rules@.len()),
            final(self).orphan_health@.len() == 0,
    {
        self.health_map = not_checked_map(self.config.rules.len());
        self.orphan_health = Vec::new();
    }

    /// An operation waits for the outcome of a portproxy command.
    pub open spec fn awaits_command(&self) -> bool {
        self.pending matches Some(p) && (p is AddEntry || p is DeleteOldEntry || p is AddNewEntry
            || p is DeleteEntry || p is DeleteOrphanEntry)
    }

    /// An operation waits for the outcome of saving the configuration.
    pub open spec fn awaits_save(&self) -> bool {
        self.pending matches Some(p) && (p is SaveAdded || p is SaveUpdated || p is SaveDeleted
            || p is SaveAdoption || p is SaveAdoptions)
    }

    /// Whether an operation waits for the outcome of a portproxy command.
    pub fn waiting_for_command(&self) -> (r: bool)
        ensures
            r == self.awaits_command(),
    {
        match &self.pending {
            Some(PendingStep::AddEntry(_)) => true,
            Some(PendingStep::DeleteOldEntry(_)) => true,
            Some(PendingStep::AddNewEntry(_)) => true,
            Some(PendingStep::DeleteEntry(_)) => true,
            Some(PendingStep::DeleteOrphanEntry) => true,
            _ => false,
        }
    }

    /// Whether an operation waits for the outcome of saving the configuration.
    pub fn waiting_for_save(&self) -> (r: bool)
        ensures
            r == self.awaits_save(),
    {
        match &self.pending {
            Some(PendingStep::SaveAdded) => true,
            Some(PendingStep::SaveUpdated) => true,
            Some(PendingStep::SaveDeleted) => true,
            Some(PendingStep::SaveAdoption(_)) => true,
            Some(PendingStep::SaveAdoptions(_)) => true,
            _ => false,
        }
    }

    /// Adds the rule that the form describes. Refused without administrator
    /// rights or when the form is invalid, with nothing changed; otherwise
    /// the system entry is to be added first.
    pub fn add_rule(&mut self) -> (a: RuleAction)
        ensures
            !old(self).is_admin ==> a == refused(RuleError::AdminRequired) && *final(self)
                == *old(self),
            old(self).is_admin ==> match form_request(
                old(self).add_listen_port@,
                old(self).add_connect_address@,
                old(self).add_connect_port@,
            ) {
                Err(e) => a == refused(e) && *final(self) == *old(self),
                Ok(q) => (a matches RuleAction::Run(
                    RuleCommand::Add { listen_port, connect_address, connect_port },
                ) && listen_port == q.0 && connect_address@ == q.1 && connect_port == q.2) && (final(self).pending matches Some(PendingStep::AddEntry(req)) && request_view(req) == q)
                    && *final(self) == (RulesPanel { pending: final(self).pending, ..*old(self) }),
            },
    {
        if !self.is_admin {
            return RuleAction::Finish {
                result: Err(RuleFailure::Refused(RuleError::AdminRequired)),
                refresh: false,
            };
        }
        match self.read_rule_form() {
            Err(e) => RuleAction::Finish { result: Err(RuleFailure::Refused(e)), refresh: false },
            Ok(req) => {
                let cmd = RuleCommand::Add {
                    listen_port: req.listen_port,
                    connect_address: req.connect_address.clone(),
                    connect_port: req.connect_port,
                };
                self.pending = Some(PendingStep::AddEntry(req));
                RuleAction::Run(cmd)
            },
        }
    }

    /// Saves the edit that the form describes for the rule being edited.
    /// Refused without administrator rights, without a rule being edited or
    /// with an invalid form, with nothing changed. When the system entry
    /// must be replaced, the old one is to be deleted first; otherwise the
    /// rule is replaced and the configuration is to be saved.
    pub fn update_rule(&mut self) -> (a: RuleAction)
        ensures
            !old(self).is_admin ==> a == refused(RuleError::AdminRequired) && *final(self)
                == *old(self),
            old(self).is_admin ==> match edit_request(*old(self)) {
                Err(e) => a == refused(e) && *final(self) == *old(self),
                Ok((idx, q)) => {
                    let r0 = old(self).config.rules@[idx as int]@;
                    &&& replaces_entry(r0, q) ==> (a matches RuleAction::Run(
                        RuleCommand::Delete { listen_port, listen_address },
                    ) && listen_port == r0.listen_port && listen_address@ == r0.listen_address)
                        && (final(self).pending matches Some(PendingStep::DeleteOldEntry(u))
                        && u.index == idx && request_view(u.request) == q) && *final(self) == (RulesPanel { pending: final(self).pending, ..*old(self) })
                    &&& !replaces_entry(r0, q) ==> a == RuleAction::Save && final(self).pending
                        == Some(PendingStep::SaveUpdated) && rules_view(final(self).config.rules@)
                        == rules_view(old(self).config.rules@).update(
                        idx as int,
                        form_rule(old(self).add_name@, old(self).add_notes@, q),
                    ) && *final(self) == (RulesPanel { config: Config { rules: final(self).config.rules, ..old(self).config }, pending: final(self).pending, ..*old(self) })
                },
            },
    {
        if !self.is_admin {
            return RuleAction::Finish {
                result: Err(RuleFailure::Refused(RuleError::AdminRequired)),
                refresh: false,
            };
        }
        let upd = match self.update_request() {
            Ok(u) => u,
            Err(e) => return RuleAction::Finish {
                result: Err(RuleFailure::Refused(e)),
                refresh: false,
            },
        };
        let cmd = match &upd.replaced_entry {
            Some((p, a)) => Some(RuleCommand::Delete { listen_port: *p, listen_address: a.clone() }),
            None => None,
        };
        match cmd {
            Some(c) => {
                self.pending = Some(PendingStep::DeleteOldEntry(upd));
                RuleAction::Run(c)
            },
            None => {
                self.record_edited(&upd);
                self.pending = Some(PendingStep::SaveUpdated);
                RuleAction::Save
            },
        }
    }

    /// Deletes rule `index`. Refused without administrator rights or for an
    /// index out of range, with nothing changed; otherwise its system entry
    /// is to be deleted first.
    pub fn delete_rule(&mut self, index: usize) -> (a: RuleAction)
        ensures
            !old(self).is_admin ==> a == refused(RuleError::AdminRequired) && *final(self)
                == *old(self),
            old(self).is_admin && index >= old(self).config.rules.len() ==> a == refused(
                RuleError::InvalidRuleIndex,
            ) && *final(self) == *old(self),
            old(self).is_admin && index < old(self).config.rules.len() ==> (a matches RuleAction::Run(
                RuleCommand::Delete { listen_port, listen_address },
            ) && listen_port == old(self).config.rules@[index as int].listen_port && listen_address@
                == old(self).config.rules@[index as int].listen_address@) && final(self).pending
                == Some(PendingStep::DeleteEntry(index)) && *final(self) == (RulesPanel { pending: final(self).pending, ..*old(self) }),
    {
        if !self.is_admin {
            return RuleAction::Finish {
                result: Err(RuleFailure::Refused(RuleError::AdminRequired)),
                refresh: false,
            };
        }
        match self.delete_target(index) {
            Err(e) => RuleAction::Finish { result: Err(RuleFailure::Refused(e)), refresh: false },
            Ok((p, la)) => {
                self.pending = Some(PendingStep::DeleteEntry(index));
                RuleAction::Run(RuleCommand::Delete { listen_port: p, listen_address: la })
            },
        }
    }

    /// Deletes orphan `orphan_index` from the system. Refused without
    /// administrator rights or for an index out of range, with nothing
    /// changed; otherwise its system entry is to be deleted.
    pub fn delete_orphan(&mut self, orphan_index: usize) -> (a: RuleAction)
        ensures
            !old(self).is_admin ==> a == refused(RuleError::AdminRequired) && *final(self)
                == *old(self),
            old(self).is_admin && orphan_index >= old(self).orphan_view().len() ==> a == refused(
                RuleError::InvalidOrphanIndex,
            ) && *final(self) == *old(self),
            old(self).is_admin && orphan_index < old(self).orphan_view().len() ==> (a matches RuleAction::Run(
                RuleCommand::Delete { listen_port, listen_address },
            ) && listen_port == old(self).orphan_view()[orphan_index as int].listen_port
                && listen_address@ == old(self).orphan_view()[orphan_index as int].listen_address)
                && final(self).pending == Some(PendingStep::DeleteOrphanEntry) && *final(self) == (RulesPanel { pending: final(self).pending, ..*old(self) }),
    {
        if !self.is_admin {
            return RuleAction::Finish {
                result: Err(RuleFailure::Refused(RuleError::AdminRequired)),
                refresh: false,
            };
        }
        match self.orphan_target(orphan_index) {
            Err(e) => RuleAction::Finish { result: Err(RuleFailure::Refused(e)), refresh: false },
            Ok((p, la)) => {
                self.pending = Some(PendingStep::DeleteOrphanEntry);
                RuleAction::Run(RuleCommand::Delete { listen_port: p, listen_address: la })
            },
        }
    }

    /// Adopts orphan `orphan_index`: a managed rule is recorded for it (its
    /// system entry exists already, so no command runs) and the
    /// configuration is to be saved. Refused for an index out of range,
    /// with nothing changed.
    pub fn adopt_orphan(&mut self, orphan_index: usize) -> (a: RuleAction)
        ensures
            orphan_index >= old(self).orphan_view().len() ==> a == refused(
                RuleError::InvalidOrphanIndex,
            ) && *final(self) == *old(self),
            orphan_index < old(self).orphan_view().len() ==> {
                let e = old(self).orphan_view()[orphan_index as int];
                &&& a == RuleAction::Save
                &&& final(self).pending matches Some(PendingStep::SaveAdoption(x)) && x@ == e
                &&& rules_view(final(self).config.rules@) == rules_view(
                    old(self).config.rules@,
                ).push(adopted_rule(e))
                &&& *final(self) == (RulesPanel { config: Config { rules: final(self).config.rules, ..old(self).config }, pending: final(self).pending, ..*old(self) })
            },
    {
        match self.record_adoption(orphan_index) {
            Err(e) => RuleAction::Finish { result: Err(RuleFailure::Refused(e)), refresh: false },
            Ok(entry) => {
                self.pending = Some(PendingStep::SaveAdoption(entry));
                RuleAction::Save
            },
        }
    }

    /// Adopts every orphan, in table order. With none, the operation ends at
    /// once, adopting 0, with nothing changed; otherwise the rules are
    /// recorded, after which no orphan is left, and the configuration is to
    /// be saved.
    pub fn adopt_all_orphans(&mut self) -> (a: RuleAction)
        ensures
            old(self).orphan_view().len() == 0 ==> a == finished(0, false) && *final(self)
                == *old(self),
            old(self).orphan_view().len() > 0 ==> {
                &&& a == RuleAction::Save
                &&& final(self).pending == Some(
                    PendingStep::SaveAdoptions(old(self).orphan_view().len() as usize),
                )
                &&& rules_view(final(self).config.rules@) == rules_view(old(self).config.rules@)
                    + adopted_rules(old(self).orphan_view())
                &&& final(self).orphan_view().len() == 0
                &&& *final(self) == (RulesPanel { config: Config { rules: final(self).config.rules, ..old(self).config }, pending: final(self).pending, ..*old(self) })
            },
    {
        let n = self.record_all_adoptions();
        if n == 0 {
            return RuleAction::Finish { result: Ok(0), refresh: false };
        }
        self.pending = Some(PendingStep::SaveAdoptions(n));
        RuleAction::Save
    }
    /// Takes in the outcome of the command that the operation under way
    /// asked for. A failed command ends the operation with its message,
    /// nothing changed and no refresh. After a successful one:
    /// - adding: the rule is recorded, the form blanked, and the
    ///   configuration is to be saved;
    /// - editing, old entry deleted: the new entry is to be added;
    /// - editing, new entry added: the rule is replaced and the
    ///   configuration is to be saved;
    /// - deleting a rule: the rule is forgotten (editing of it stops) and the
    ///   configuration is to be saved;
    /// - deleting an orphan: the operation is over and the table is to be
    ///   read again.
    pub fn netsh_done(&mut self, outcome: Result<(), String>) -> (a: RuleAction)
        requires
            old(self).awaits_command(),
        ensures
            outcome matches Err(m) ==> failed_with(a, m@, false) && *final(self) == (RulesPanel {
                pending: None,
                ..*old(self)
            }),
            outcome is Ok ==> match old(self).pending->0 {
                PendingStep::AddEntry(req) => a == RuleAction::Save && final(self).pending == Some(
                    PendingStep::SaveAdded,
                ) && rules_view(final(self).config.rules@) == rules_view(
                    old(self).config.rules@,
                ).push(form_rule(old(self).add_name@, old(self).add_notes@, request_view(req)))
                    && final(self).form_is_clear() && *final(self) == (RulesPanel { config: Config { rules: final(self).config.rules, ..old(self).config }, add_listen_port: final(self).add_listen_port, add_connect_address: final(self).add_connect_address, add_connect_port: final(self).add_connect_port, add_name: final(self).add_name, add_notes: final(self).add_notes, pending: final(self).pending, ..*old(self) }),
                PendingStep::DeleteOldEntry(u) => (a matches RuleAction::Run(
                    RuleCommand::Add { listen_port, connect_address, connect_port },
                ) && listen_port == u.request.listen_port && connect_address@
                    == u.request.connect_address@ && connect_port == u.request.connect_port)
                    && final(self).pending == Some(PendingStep::AddNewEntry(u)) && *final(self) == (RulesPanel { pending: final(self).pending, ..*old(self) }),
                PendingStep::AddNewEntry(u) => if u.index < old(self).config.rules.len() {
                    a == RuleAction::Save && final(self).pending == Some(PendingStep::SaveUpdated)
                        && rules_view(final(self).config.rules@) == rules_view(
                        old(self).config.rules@,
                    ).update(
                        u.index as int,
                        form_rule(old(self).add_name@, old(self).add_notes@, request_view(u.request)),
                    ) && *final(self) == (RulesPanel { config: Config { rules: final(self).config.rules, ..old(self).config }, pending: final(self).pending, ..*old(self) })
                } else {
                    a == refused(RuleError::InvalidRuleIndex) && *final(self) == (RulesPanel {
                        pending: None,
                        ..*old(self)
                    })
                },
                PendingStep::DeleteEntry(i) => if i < old(self).config.rules.len() {
                    &&& a == RuleAction::Save
                    &&& final(self).pending == Some(PendingStep::SaveDeleted)
                    &&& rules_view(final(self).config.rules@) == rules_view(
                        old(self).config.rules@,
                    ).remove(i as int)
                    &&& old(self).editing_rule_index == Some(i) ==> final(self).editing_rule_index
                        is None && final(self).form_is_clear()
                    &&& old(self).editing_rule_index != Some(i) ==> final(self).editing_rule_index
                        == old(self).editing_rule_index && final(self).add_name == old(self).add_name
                        && final(self).add_notes == old(self).add_notes && final(self).add_listen_port
                        == old(self).add_listen_port && final(self).add_connect_port
                        == old(self).add_connect_port && final(self).add_connect_address
                        == old(self).add_connect_address
                    &&& *final(self) == (RulesPanel { config: Config { rules: final(self).config.rules, ..old(self).config }, add_listen_port: final(self).add_listen_port, add_connect_address: final(self).add_connect_address, add_connect_port: final(self).add_connect_port, add_name: final(self).add_name, add_notes: final(self).add_notes, editing_rule_index: final(self).editing_rule_index, pending: final(self).pending, ..*old(self) })
                } else {
                    a == refused(RuleError::InvalidRuleIndex) && *final(self) == (RulesPanel {
                        pending: None,
                        ..*old(self)
                    })
                },
                PendingStep::DeleteOrphanEntry => a == finished(0, true) && *final(self) == (
                RulesPanel { pending: None, ..*old(self) }),
                _ => true,
            },
    {
        let mut step: Option<PendingStep> = None;
        std::mem::swap(&mut step, &mut self.pending);
        let step = match step {
            Some(p) => p,
            None => return RuleAction::Finish { result: Ok(0), refresh: false },
        };
        match outcome {
            Err(m) => RuleAction::Finish { result: Err(RuleFailure::Failed(m)), refresh: false },
            Ok(()) => match step {
                PendingStep::AddEntry(req) => {
                    self.record_added(&req);
                    self.pending = Some(PendingStep::SaveAdded);
                    RuleAction::Save
                },
                PendingStep::DeleteOldEntry(u) => {
                    let cmd = RuleCommand::Add {
                        listen_port: u.request.listen_port,
                        connect_address: u.request.connect_address.clone(),
                        connect_port: u.request.connect_port,
                    };
                    self.pending = Some(PendingStep::AddNewEntry(u));
                    RuleAction::Run(cmd)
                },
                PendingStep::AddNewEntry(u) => {
                    if u.index < self.config.rules.len() {
                        self.record_edited(&u);
                        self.pending = Some(PendingStep::SaveUpdated);
                        RuleAction::Save
                    } else {
                        RuleAction::Finish {
                            result: Err(RuleFailure::Refused(RuleError::InvalidRuleIndex)),
                            refresh: false,
                        }
                    }
                },
                PendingStep::DeleteEntry(i) => {
                    if i < self.config.rules.len() {
                        self.forget_rule(i);
                        self.pending = Some(PendingStep::SaveDeleted);
                        RuleAction::Save
                    } else {
                        RuleAction::Finish {
                            result: Err(RuleFailure::Refused(RuleError::InvalidRuleIndex)),
                            refresh: false,
                        }
                    }
                },
                PendingStep::DeleteOrphanEntry => RuleAction::Finish { result: Ok(0), refresh: true },
                _ => RuleAction::Finish { result: Ok(0), refresh: false },
            },
        }
    }

    /// Takes in the outcome of saving the configuration, which ends the
    /// operation under way:
    /// - adding or deleting a rule: the table is to be read again; a failed
    ///   save is reported as such after the system was changed;
    /// - editing: when saved, editing ends, the form is blanked and the table
    ///   is to be read again; a failed save is reported as it is, with
    ///   editing going on;
    /// - adopting an orphan: when saved, the adopted rule is marked not
    ///   checked and the orphan's state is forgotten;
    /// - adopting all orphans: when saved, every rule is marked not checked
    ///   and no orphan state is kept; the result is the number adopted.
    pub fn save_done(&mut self, saved: Result<(), String>) -> (a: RuleAction)
        requires
            old(self).awaits_save(),
        ensures
            match old(self).pending->0 {
                PendingStep::SaveAdded => *final(self) == (RulesPanel { pending: None, ..*old(self) })
                    && match saved {
                    Ok(()) => a == finished(0, true),
                    Err(e) => failed_with(a, save_failed_after_command(e@), true),
                },
                PendingStep::SaveDeleted => *final(self) == (RulesPanel {
                    pending: None,
                    ..*old(self)
                }) && match saved {
                    Ok(()) => a == finished(0, true),
                    Err(e) => failed_with(a, save_failed_after_command(e@), true),
                },
                PendingStep::SaveUpdated => match saved {
                    Ok(()) => a == finished(0, true) && final(self).form_is_clear()
                        && final(self).editing_rule_index is None && *final(self) == (RulesPanel { add_listen_port: final(self).add_listen_port, add_connect_address: final(self).add_connect_address, add_connect_port: final(self).add_connect_port, add_name: final(self).add_name, add_notes: final(self).add_notes, editing_rule_index: None, pending: None, ..*old(self) }),
                    Err(e) => failed_with(a, e@, false) && *final(self) == (RulesPanel {
                        pending: None,
                        ..*old(self)
                    }),
                },
                PendingStep::SaveAdoption(x) => match saved {
                    Ok(()) => {
                        &&& a == finished(0, false)
                        &&& old(self).config.rules.len() > 0 ==> {
                            &&& final(self).health_map@ == old(self).health_map@.insert(
                                (old(self).config.rules@.len() - 1) as usize,
                                HealthStatus::NotChecked,
                            )
                            &&& pairs_view(final(self).orphan_health@) == without_key(
                                pairs_view(old(self).orphan_health@),
                                x@,
                            )
                            &&& status_map(pairs_view(final(self).orphan_health@)) == status_map(
                                pairs_view(old(self).orphan_health@),
                            ).remove(x@)
                            &&& *final(self) == (RulesPanel { health_map: final(self).health_map, orphan_health: final(self).orphan_health, pending: None, ..*old(self) })
                        }
                        &&& old(self).config.rules.len() == 0 ==> *final(self) == (RulesPanel {
                            pending: None,
                            ..*old(self)
                        })
                    },
                    Err(e) => failed_with(a, e@, false) && *final(self) == (RulesPanel {
                        pending: None,
                        ..*old(self)
                    }),
                },
                PendingStep::SaveAdoptions(n) => match saved {
                    Ok(()) => a == finished(n, false) && final(self).health_map@ == not_checked_upto(
                        old(self).config.rules@.len(),
                    ) && final(self).orphan_health@.len() == 0 && *final(self) == (RulesPanel { health_map: final(self).health_map, orphan_health: final(self).orphan_health, pending: None, ..*old(self) }),
                    Err(e) => failed_with(a, e@, false) && *final(self) == (RulesPanel {
                        pending: None,
                        ..*old(self)
                    }),
                },
                _ => true,
            },
    {
        let mut step: Option<PendingStep> = None;
        std::mem::swap(&mut step, &mut self.pending);
        let step = match step {
            Some(p) => p,
            None => return RuleAction::Finish { result: Ok(0), refresh: false },
        };
        match step {
            PendingStep::SaveAdded => match saved {
                Ok(()) => RuleAction::Finish { result: Ok(0), refresh: true },
                Err(e) => RuleAction::Finish {
                    result: Err(RuleFailure::Failed(after_command_message(&e))),
                    refresh: true,
                },
            },
            PendingStep::SaveDeleted => match saved {
                Ok(()) => RuleAction::Finish { result: Ok(0), refresh: true },
                Err(e) => RuleAction::Finish {
                    result: Err(RuleFailure::Failed(after_command_message(&e))),
                    refresh: true,
                },
            },
            PendingStep::SaveUpdated => match saved {
                Ok(()) => {
                    self.finish_edit();
                    RuleAction::Finish { result: Ok(0), refresh: true }
                },
                Err(e) => RuleAction::Finish { result: Err(RuleFailure::Failed(e)), refresh: false },
            },
            PendingStep::SaveAdoption(x) => match saved {
                Ok(()) => {
                    if self.config.rules.len() > 0 {
                        self.note_adoption(&x);
                    }
                    RuleAction::Finish { result: Ok(0), refresh: false }
                },
                Err(e) => RuleAction::Finish { result: Err(RuleFailure::Failed(e)), refresh: false },
            },
            PendingStep::SaveAdoptions(n) => match saved {
                Ok(()) => {
                    self.mark_all_not_checked();
                    RuleAction::Finish { result: Ok(n), refresh: false }
                },
                Err(e) => RuleAction::Finish { result: Err(RuleFailure::Failed(e)), refresh: false },
            },
            _ => RuleAction::Finish { result: Ok(0), refresh: false },
        }
    }
}

/// The message for a save that failed after the system was changed.
fn after_command_message(e: &String) -> (r: String)
    ensures
        r@ == save_failed_after_command(e@),
{
    let mut m = chars_of("netsh succeeded but config save failed: ");
    append_chars(&mut m, &chars_of_string(e));
    string_from_chars(&m)
}

fn remove_key(v: &Vec<(OrphanKey, HealthStatus)>, e: &PortproxyEntry) -> (r: Vec<
    (OrphanKey, HealthStatus),
>)
    ensures
        pairs_view(r@) == without_key(pairs_view(v@), e@),
{
    let ghost pv = pairs_view(v@);
    let mut out: Vec<(OrphanKey, HealthStatus)> = Vec::new();
    let mut k: usize = 0;
    assert(pv.take(0) =~= Seq::<(PortproxyEntryView, HealthStatusView)>::empty());
    while k < v.len()
        invariant
            k <= v.len(),
            pv == pairs_view(v@),
            pairs_view(out@) == without_key(pv.take(k as int), e@),
        decreases v.len() - k,
    {
        assert(pv.take(k + 1).drop_last() =~= pv.take(k as int));
        assert(pv.take(k + 1).last() == pv[k as int]);
        let key = &v[k].0;
        let same = key.listen_port == e.listen_port && key.listen_address == e.listen_address
            && key.connect_address == e.connect_address && key.connect_port == e.connect_port;
        if !same {
            let ghost before = pairs_view(out@);
            let p = (key.duplicate(), v[k].1.duplicate());
            let ghost pvv = (p.0@, p.1@);
            out.push(p);
            assert(pairs_view(out@) =~= before.push(pvv));
        }
        k += 1;
    }
    assert(pv.take(v.len() as int) =~= pv);
    out
}

} // verus!
