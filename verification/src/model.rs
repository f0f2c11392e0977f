//! The data the gateway works with: forwarding rules, portproxy entries,
//! network interfaces and health states, each with a mathematical view.
use vstd::prelude::*;

verus! {

/// The user interface language.
#[derive(Debug, Clone, Copy, PartialEq, Eq, Structural)]
pub enum Language {
    ZhCn,
    EnUs,
}

/// A forwarding rule as kept in the configuration file.
#[derive(Debug, Clone)]
pub struct ForwardRule {
    pub name: String,
    pub notes: String,
    pub listen_address: String,
    pub listen_port: u16,
    pub connect_address: String,
    pub connect_port: u16,
    pub managed: bool,
}

pub struct ForwardRuleView {
    pub name: Seq<char>,
    pub notes: Seq<char>,
    pub listen_address: Seq<char>,
    pub listen_port: u16,
    pub connect_address: Seq<char>,
    pub connect_port: u16,
    pub managed: bool,
}

impl View for ForwardRule {
    type V = ForwardRuleView;

    open spec fn view(&self) -> ForwardRuleView {
        ForwardRuleView {
            name: self.name@,
            notes: self.notes@,
            listen_address: self.listen_address@,
            listen_port: self.listen_port,
            connect_address: self.connect_address@,
            connect_port: self.connect_port,
            managed: self.managed,
        }
    }
}

impl ForwardRule {
    /// A field-by-field copy.
    pub fn duplicate(&self) -> (r: ForwardRule)
        ensures
            r@ == self@,
    {
        ForwardRule {
            name: self.name.clone(),
            notes: self.notes.clone(),
            listen_address: self.listen_address.clone(),
            listen_port: self.listen_port,
            connect_address: self.connect_address.clone(),
            connect_port: self.connect_port,
            managed: self.managed,
        }
    }
}

pub open spec fn rules_view(v: Seq<ForwardRule>) -> Seq<ForwardRuleView> {
    v.map_values(|r: ForwardRule| r@)
}

/// The health of a rule or of a portproxy entry.
#[derive(Debug, Clone, PartialEq)]
pub enum HealthStatus {
    NotChecked,
    Healthy,
    TargetUnreachable(String),
    MetadataOnly,
    Unknown,
}

pub enum HealthStatusView {
    NotChecked,
    Healthy,
    TargetUnreachable(Seq<char>),
    MetadataOnly,
    Unknown,
}

impl View for HealthStatus {
    type V = HealthStatusView;

    open spec fn view(&self) -> HealthStatusView {
        match self {
            HealthStatus::NotChecked => HealthStatusView::NotChecked,
            HealthStatus::Healthy => HealthStatusView::Healthy,
            HealthStatus::TargetUnreachable(d) => HealthStatusView::TargetUnreachable(d@),
            HealthStatus::MetadataOnly => HealthStatusView::MetadataOnly,
            HealthStatus::Unknown => HealthStatusView::Unknown,
        }
    }
}

/// The label shown for a health state in each language.
pub open spec fn health_label(h: HealthStatusView, lang: Language) -> Seq<char> {
    match h {
        HealthStatusView::NotChecked => match lang {
            Language::ZhCn => "未检查"@,
            Language::EnUs => "Not checked"@,
        },
        HealthStatusView::Healthy => match lang {
            Language::ZhCn => "正常"@,
            Language::EnUs => "Healthy"@,
        },
        HealthStatusView::TargetUnreachable(_) => match lang {
            Language::ZhCn => "目标不可达"@,
            Language::EnUs => "Target Unreachable"@,
        },
        HealthStatusView::MetadataOnly => match lang {
            Language::ZhCn => "仅有本地配置"@,
            Language::EnUs => "Metadata Only"@,
        },
        HealthStatusView::Unknown => match lang {
            Language::ZhCn => "未知"@,
            Language::EnUs => "Unknown"@,
        },
    }
}

impl HealthStatus {
    pub fn label(&self, lang: Language) -> (r: &str)
        ensures
            r@ == health_label(self@, lang),
    {
        match self {
            HealthStatus::NotChecked => match lang {
                Language::ZhCn => "未检查",
                Language::EnUs => "Not checked",
            },
            HealthStatus::Healthy => match lang {
                Language::ZhCn => "正常",
                Language::EnUs => "Healthy",
            },
            HealthStatus::TargetUnreachable(_) => match lang {
                Language::ZhCn => "目标不可达",
                Language::EnUs => "Target Unreachable",
            },
            HealthStatus::MetadataOnly => match lang {
                Language::ZhCn => "仅有本地配置",
                Language::EnUs => "Metadata Only",
            },
            HealthStatus::Unknown => match lang {
                Language::ZhCn => "未知",
                Language::EnUs => "Unknown",
            },
        }
    }

    /// The reason a target was unreachable; empty for every other state.
    pub fn detail(&self) -> (r: &str)
        ensures
            r@ == (match self@ {
                HealthStatusView::TargetUnreachable(d) => d,
                _ => ""@,
            }),
    {
        match self {
            HealthStatus::TargetUnreachable(detail) => detail.as_str(),
            _ => "",
        }
    }

    /// A copy of this state.
    pub fn duplicate(&self) -> (r: HealthStatus)
        ensures
            r@ == self@,
    {
        match self {
            HealthStatus::NotChecked => HealthStatus::NotChecked,
            HealthStatus::Healthy => HealthStatus::Healthy,
            HealthStatus::TargetUnreachable(d) => HealthStatus::TargetUnreachable(d.clone()),
            HealthStatus::MetadataOnly => HealthStatus::MetadataOnly,
            HealthStatus::Unknown => HealthStatus::Unknown,
        }
    }
}

/// One row of the system's portproxy table.
#[derive(Debug, Clone, PartialEq)]
pub struct PortproxyEntry {
    pub listen_address: String,
    pub listen_port: u16,
    pub connect_address: String,
    pub connect_port: u16,
}

pub struct PortproxyEntryView {
    pub listen_address: Seq<char>,
    pub listen_port: u16,
    pub connect_address: Seq<char>,
    pub connect_port: u16,
}

impl View for PortproxyEntry {
    type V = PortproxyEntryView;

    open spec fn view(&self) -> PortproxyEntryView {
        PortproxyEntryView {
            listen_address: self.listen_address@,
            listen_port: self.listen_port,
            connect_address: self.connect_address@,
            connect_port: self.connect_port,
        }
    }
}

impl PortproxyEntry {
    pub fn duplicate(&self) -> (r: PortproxyEntry)
        ensures
            r@ == self@,
    {
        PortproxyEntry {
            listen_address: self.listen_address.clone(),
            listen_port: self.listen_port,
            connect_address: self.connect_address.clone(),
            connect_port: self.connect_port,
        }
    }
}

pub open spec fn entries_view(v: Seq<PortproxyEntry>) -> Seq<PortproxyEntryView> {
    v.map_values(|e: PortproxyEntry| e@)
}

/// The identity of a portproxy entry that no rule manages.
#[derive(Debug, Clone, PartialEq, Eq, Hash)]
pub struct OrphanKey {
    pub listen_address: String,
    pub listen_port: u16,
    pub connect_address: String,
    pub connect_port: u16,
}

impl View for OrphanKey {
    type V = PortproxyEntryView;

    open spec fn view(&self) -> PortproxyEntryView {
        PortproxyEntryView {
            listen_address: self.listen_address@,
            listen_port: self.listen_port,
            connect_address: self.connect_address@,
            connect_port: self.connect_port,
        }
    }
}

impl OrphanKey {
    pub fn from_entry(e: &PortproxyEntry) -> (r: OrphanKey)
        ensures
            r@ == e@,
    {
        OrphanKey {
            listen_address: e.listen_address.clone(),
            listen_port: e.listen_port,
            connect_address: e.connect_address.clone(),
            connect_port: e.connect_port,
        }
    }

    pub fn duplicate(&self) -> (r: OrphanKey)
        ensures
            r@ == self@,
    {
        OrphanKey {
            listen_address: self.listen_address.clone(),
            listen_port: self.listen_port,
            connect_address: self.connect_address.clone(),
            connect_port: self.connect_port,
        }
    }
}

/// A network interface with one IPv4 address.
#[derive(Debug, Clone)]
pub struct InterfaceInfo {
    pub name: String,
    pub ipv4: String,
    pub mac: String,
    pub is_virtual: bool,
}

pub struct InterfaceView {
    pub name: Seq<char>,
    pub ipv4: Seq<char>,
    pub mac: Seq<char>,
    pub is_virtual: bool,
}

impl View for InterfaceInfo {
    type V = InterfaceView;

    open spec fn view(&self) -> InterfaceView {
        InterfaceView {
            name: self.name@,
            ipv4: self.ipv4@,
            mac: self.mac@,
            is_virtual: self.is_virtual,
        }
    }
}

impl InterfaceInfo {
    pub fn duplicate(&self) -> (r: InterfaceInfo)
        ensures
            r@ == self@,
    {
        InterfaceInfo {
            name: self.name.clone(),
            ipv4: self.ipv4.clone(),
            mac: self.mac.clone(),
            is_virtual: self.is_virtual,
        }
    }
}

pub open spec fn ifaces_view(v: Seq<InterfaceInfo>) -> Seq<InterfaceView> {
    v.map_values(|i: InterfaceInfo| i@)
}

/// A copy of a list of interfaces.
pub fn copy_interfaces(v: &Vec<InterfaceInfo>) -> (r: Vec<InterfaceInfo>)
    ensures
        ifaces_view(r@) == ifaces_view(v@),
{
    let mut r: Vec<InterfaceInfo> = Vec::new();
    let mut i: usize = 0;
    while i < v.len()
        invariant
            i <= v.len(),
            ifaces_view(r@) == ifaces_view(v@).take(i as int),
        decreases v.len() - i,
    {
        let ghost before = ifaces_view(r@);
        r.push(v[i].duplicate());
        assert(ifaces_view(r@) =~= before.push(v@[i as int]@));
        assert(ifaces_view(v@).take(i + 1) =~= ifaces_view(v@).take(i as int).push(v@[i as int]@));
        i += 1;
    }
    assert(ifaces_view(v@).take(v.len() as int) =~= ifaces_view(v@));
    r
}

/// A copy of a list of strings.
pub fn copy_strings(v: &Vec<String>) -> (r: Vec<String>)
    ensures
        r@.map_values(|s: String| s@) == v@.map_values(|s: String| s@),
{
    let mut r: Vec<String> = Vec::new();
    let mut i: usize = 0;
    while i < v.len()
        invariant
            i <= v.len(),
            r@.map_values(|s: String| s@) == v@.map_values(|s: String| s@).take(i as int),
        decreases v.len() - i,
    {
        let ghost before = r@.map_values(|s: String| s@);
        r.push(v[i].clone());
        assert(r@.map_values(|s: String| s@) =~= before.push(v@[i as int]@));
        assert(v@.map_values(|s: String| s@).take(i + 1) =~= v@.map_values(|s: String| s@).take(
            i as int,
        ).push(v@[i as int]@));
        i += 1;
    }
    assert(v@.map_values(|s: String| s@).take(v.len() as int) =~= v@.map_values(|s: String| s@));
    r
}

/// A moment of the monotonic clock, carried through unread.
#[verifier::external_type_specification]
#[verifier::external_body]
pub struct ExInstant(std::time::Instant);

/// Progress of a refresh of the dashboard data: `Done` carries the moment
/// it completed and the error it met, if any.
#[derive(Debug)]
pub enum RefreshState {
    Idle,
    Refreshing,
    Done { at: std::time::Instant, error: Option<String> },
}

/// What the dashboard shows.
#[derive(Debug)]
pub struct DashboardInfo {
    pub hostname: String,
    pub local_ipv4: Vec<String>,
    pub active_interface: String,
    pub is_admin: bool,
    pub rule_count: usize,
    pub gateway_ip: String,
    pub interfaces: Vec<InterfaceInfo>,
    pub refresh_state: RefreshState,
}

} // verus!
