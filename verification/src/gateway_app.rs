//! The application state: the panels, the dashboard data and the decisions
//! taken when a background refresh completes or a setting changes. Running
//! commands, threads and drawing are left to the program around it.
use vstd::prelude::*;
use crate::config::Config;
use crate::model::{
    DashboardInfo, HealthStatus, InterfaceInfo, Language, PortproxyEntry, RefreshState, copy_interfaces,
    copy_strings, ifaces_view,
};
use crate::network::{
    distinct_ipv4s, get_interface_for_ip, iface_of, ipv4_addresses_from, preferred_ip,
    select_preferred_ip, usable_gateway_ipv4_addresses, usable_only,
};
use crate::panels::{DashboardPanel, SettingsPanel};
use crate::rules::{RulesPanel, not_checked_upto};
use crate::text::{string_of, sv};

verus! {

/// The page shown.
#[derive(Debug, Clone, Copy, PartialEq, Eq, Structural)]
pub enum Tab {
    Dashboard,
    Rules,
    Settings,
}

/// What the status bar shows in place of the gateway address.
#[derive(Debug, Clone, Copy, PartialEq, Eq, Structural)]
pub enum GatewayShown {
    /// A refresh is under way.
    Initializing,
    /// No address is usable as the gateway.
    NoUsableAddress,
    /// The gateway address itself.
    Address,
}

/// What a background refresh gathered: the dashboard data and the
/// portproxy table.
pub struct RefreshResult {
    pub info: DashboardInfo,
    pub proxy_entries: Vec<PortproxyEntry>,
}

/// The name of the interface carrying `ip`, as `get_interface_for_ip` gives it.
pub open spec fn interface_name(ip: Seq<char>, interfaces: Seq<InterfaceInfo>) -> Seq<char> {
    if ip.len() == 0 {
        "Unknown"@
    } else {
        match iface_of(ip, ifaces_view(interfaces)) {
            Some(j) => interfaces[j].name@,
            None => "Unknown"@,
        }
    }
}

/// The state of the whole application.
pub struct LanGatewayApp {
    pub tab: Tab,
    pub dashboard: DashboardPanel,
    pub rules_panel: RulesPanel,
    pub settings_panel: SettingsPanel,
    pub dashboard_info: DashboardInfo,
    pub config_path: String,
    pub language: Language,
    pub config: Config,
    pub initial_refresh_done: bool,
    pub initial_health_started: bool,
}

impl LanGatewayApp {
    /// The state at start-up, before the first refresh: the dashboard shows
    /// placeholders and a refresh in progress.
    pub fn new(config: Config, config_path: String, is_admin: bool) -> (r: Self)
        ensures
            r.config@ == config@,
            r.config_path@ == config_path@,
            r.language == config.language,
            r.tab == Tab::Dashboard,
            r.dashboard.elevation_error is None,
            r.dashboard_info.is_admin == is_admin,
            r.dashboard_info.refresh_state is Refreshing,
            r.dashboard_info.hostname@.len() == 0,
            r.dashboard_info.local_ipv4@.len() == 0,
            r.dashboard_info.active_interface@.len() == 0,
            r.dashboard_info.gateway_ip@.len() == 0,
            r.dashboard_info.interfaces@.len() == 0,
            r.dashboard_info.rule_count == 0,
            r.rules_panel.config@ == config@,
            r.rules_panel.config_path@ == config_path@,
            r.rules_panel.is_admin == is_admin,
            r.rules_panel.proxy_entries@.len() == 0,
            r.rules_panel.health_map@ == Map::<usize, HealthStatus>::empty(),
            r.rules_panel.orphan_health@.len() == 0,
            r.rules_panel.status_message@.len() == 0,
            !r.rules_panel.health_check_running,
            r.rules_panel.editing_rule_index is None,
            r.rules_panel.form_is_clear(),
            r.rules_panel.pending is None,
            r.settings_panel.mdns_hostname@ == config.mdns_hostname@,
            r.settings_panel.preferred_gateway_ip@ == config.preferred_gateway_ip@,
            r.settings_panel.interfaces@.len() == 0,
            r.settings_panel.config_path@ == config_path@,
            !r.initial_refresh_done,
            !r.initial_health_started,
    {
        let placeholder = DashboardInfo {
            hostname: String::new(),
            local_ipv4: Vec::new(),
            active_interface: String::new(),
            is_admin,
            rule_count: 0,
            gateway_ip: String::new(),
            interfaces: Vec::new(),
            refresh_state: RefreshState::Refreshing,
        };
        let rules_panel = RulesPanel::new(config.duplicate(), config_path.clone(), is_admin);
        let settings_panel = SettingsPanel {
            mdns_hostname: config.mdns_hostname.clone(),
            preferred_gateway_ip: config.preferred_gateway_ip.clone(),
            interfaces: Vec::new(),
            config_path: config_path.clone(),
        };
        let language = config.language;
        LanGatewayApp {
            tab: Tab::Dashboard,
            dashboard: DashboardPanel::new(),
            rules_panel,
            settings_panel,
            dashboard_info: placeholder,
            config_path,
            language,
            config,
            initial_refresh_done: false,
            initial_health_started: false,
        }
    }

    /// Assembles the dashboard data from what a refresh read: the host
    /// name ("unknown" when it could not be read), the interfaces, and the
    /// portproxy table (empty when it could not be read).
    pub fn build_dashboard_info(
        config: &Config,
        is_admin: bool,
        hostname: Option<String>,
        interfaces: Vec<InterfaceInfo>,
        proxy: Result<Vec<PortproxyEntry>, String>,
        completed_at: std::time::Instant,
    ) -> (r: RefreshResult)
        ensures
            r.info.hostname@ == (match hostname {
                Some(h) => h@,
                None => "unknown"@,
            }),
            ifaces_view(r.info.interfaces@) == ifaces_view(interfaces@),
            sv(r.info.local_ipv4@) == usable_only(distinct_ipv4s(ifaces_view(interfaces@))),
            r.info.gateway_ip@ == preferred_ip(
                distinct_ipv4s(ifaces_view(interfaces@)),
                config.preferred_gateway_ip@,
                ifaces_view(interfaces@),
            ),
            r.info.active_interface@ == interface_name(r.info.gateway_ip@, interfaces@),
            r.info.is_admin == is_admin,
            r.info.rule_count == r.proxy_entries@.len(),
            r.info.refresh_state matches RefreshState::Done { at, error } && at == completed_at
                && error is None,
            r.proxy_entries@ == (match proxy {
                Ok(es) => es@,
                Err(_) => Seq::<PortproxyEntry>::empty(),
            }),
    {
        let hostname = match hostname {
            Some(h) => h,
            None => string_of("unknown"),
        };
        let ipv4s = ipv4_addresses_from(interfaces.as_slice());
        let usable = usable_gateway_ipv4_addresses(interfaces.as_slice());
        let proxy_entries = match proxy {
            Ok(es) => es,
            Err(_) => Vec::new(),
        };
        let gateway_ip = select_preferred_ip(
            ipv4s.as_slice(),
            config.preferred_gateway_ip.as_str(),
            interfaces.as_slice(),
        );
        let active = string_of(get_interface_for_ip(gateway_ip.as_str(), interfaces.as_slice()));
        let n = proxy_entries.len();
        RefreshResult {
            info: DashboardInfo {
                hostname,
                local_ipv4: usable,
                active_interface: active,
                is_admin,
                rule_count: n,
                gateway_ip,
                interfaces,
                refresh_state: RefreshState::Done { at: completed_at, error: None },
            },
            proxy_entries,
        }
    }

    /// Marks a background refresh as started; false when one is running.
    pub fn start_background_refresh(&mut self) -> (started: bool)
        ensures
            started == !(old(self).dashboard_info.refresh_state is Refreshing),
            final(self).dashboard_info.refresh_state is Refreshing,
            *final(self) == (LanGatewayApp {
                dashboard_info: DashboardInfo {
                    refresh_state: final(self).dashboard_info.refresh_state,
                    ..old(self).dashboard_info
                },
                ..*old(self)
            }),
    {
        if let RefreshState::Refreshing = self.dashboard_info.refresh_state {
            return false;
        }
        self.dashboard_info.refresh_state = RefreshState::Refreshing;
        true
    }

    /// Takes in a completed background refresh, if there is one; returns
    /// whether it was the first; `now` is the moment it is taken in. When
    /// the refresh found no interfaces but
    /// some were known, the known network data is kept and the dashboard
    /// says so.
    pub fn try_apply_refresh(&mut self, pending: Option<RefreshResult>, now: std::time::Instant) -> (was_initial: bool)
        ensures
            pending is None ==> !was_initial && *final(self) == *old(self),
            pending is Some ==> *final(self) == (LanGatewayApp {
                dashboard_info: final(self).dashboard_info,
                rules_panel: RulesPanel {
                    proxy_entries: final(self).rules_panel.proxy_entries,
                    health_map: final(self).rules_panel.health_map,
                    orphan_health: final(self).rules_panel.orphan_health,
                    is_admin: final(self).rules_panel.is_admin,
                    ..old(self).rules_panel
                },
                settings_panel: SettingsPanel {
                    interfaces: final(self).settings_panel.interfaces,
                    ..old(self).settings_panel
                },
                initial_refresh_done: true,
                ..*old(self)
            }),
            pending matches Some(res) ==> {
                let keep = res.info.interfaces@.len() == 0
                    && old(self).dashboard_info.interfaces@.len() > 0;
                &&& was_initial == !old(self).initial_refresh_done
                &&& final(self).initial_refresh_done
                &&& final(self).rules_panel.proxy_entries@ == res.proxy_entries@
                &&& final(self).rules_panel.health_map@ == not_checked_upto(
                    old(self).rules_panel.config.rules@.len(),
                )
                &&& final(self).rules_panel.is_admin == res.info.is_admin
                &&& final(self).dashboard_info.is_admin == res.info.is_admin
                &&& final(self).dashboard_info.rule_count == res.proxy_entries@.len()
                &&& final(self).dashboard_info.hostname@ == res.info.hostname@
                &&& ifaces_view(final(self).settings_panel.interfaces@) == ifaces_view(
                    final(self).dashboard_info.interfaces@,
                )
                &&& keep ==> {
                    &&& ifaces_view(final(self).dashboard_info.interfaces@) == ifaces_view(
                        old(self).dashboard_info.interfaces@,
                    )
                    &&& sv(final(self).dashboard_info.local_ipv4@) == sv(
                        old(self).dashboard_info.local_ipv4@,
                    )
                    &&& final(self).dashboard_info.gateway_ip@ == old(self).dashboard_info.gateway_ip@
                    &&& final(self).dashboard_info.active_interface@ == old(self).dashboard_info.active_interface@
                    &&& final(self).dashboard_info.refresh_state matches RefreshState::Done {
                        at,
                        error,
                    } && at == now && (error matches Some(m) && m@
                        == "Network detection failed, showing cached data"@)
                }
                &&& !keep ==> {
                    &&& ifaces_view(final(self).dashboard_info.interfaces@) == ifaces_view(
                        res.info.interfaces@,
                    )
                    &&& sv(final(self).dashboard_info.local_ipv4@) == sv(res.info.local_ipv4@)
                    &&& final(self).dashboard_info.gateway_ip@ == res.info.gateway_ip@
                    &&& final(self).dashboard_info.active_interface@
                        == res.info.active_interface@
                    &&& final(self).dashboard_info.refresh_state == res.info.refresh_state
                }
            },
    {
        let result = match pending {
            Some(r) => r,
            None => return false,
        };
        let mut info = result.info;
        if info.interfaces.len() == 0 && self.dashboard_info.interfaces.len() > 0 {
            info.interfaces = copy_interfaces(&self.dashboard_info.interfaces);
            info.local_ipv4 = copy_strings(&self.dashboard_info.local_ipv4);
            info.gateway_ip = self.dashboard_info.gateway_ip.clone();
            info.active_interface = self.dashboard_info.active_interface.clone();
            info.refresh_state = RefreshState::Done {
                at: now,
                error: Some(string_of("Network detection failed, showing cached data")),
            };
        }
        self.dashboard_info = info;
        self.rules_panel.apply_proxy_entries(result.proxy_entries);
        self.rules_panel.is_admin = self.dashboard_info.is_admin;
        self.dashboard_info.rule_count = self.rules_panel.proxy_entries.len();
        self.settings_panel.interfaces = copy_interfaces(&self.dashboard_info.interfaces);
        let was_initial = !self.initial_refresh_done;
        self.initial_refresh_done = true;
        was_initial
    }

    /// Chooses the gateway address again after the preferred one changed.
    pub fn recompute_gateway_ip_from_ui(&mut self)
        ensures
            final(self).dashboard_info.gateway_ip@ == preferred_ip(
                distinct_ipv4s(ifaces_view(old(self).dashboard_info.interfaces@)),
                old(self).config.preferred_gateway_ip@,
                ifaces_view(old(self).dashboard_info.interfaces@),
            ),
            final(self).dashboard_info.active_interface@ == interface_name(
                final(self).dashboard_info.gateway_ip@,
                old(self).dashboard_info.interfaces@,
            ),
            *final(self) == (LanGatewayApp {
                dashboard_info: DashboardInfo {
                    gateway_ip: final(self).dashboard_info.gateway_ip,
                    active_interface: final(self).dashboard_info.active_interface,
                    ..old(self).dashboard_info
                },
                ..*old(self)
            }),
    {
        let ips = ipv4_addresses_from(self.dashboard_info.interfaces.as_slice());
        let gw = select_preferred_ip(
            ips.as_slice(),
            self.config.preferred_gateway_ip.as_str(),
            self.dashboard_info.interfaces.as_slice(),
        );
        let active = string_of(
            get_interface_for_ip(gw.as_str(), self.dashboard_info.interfaces.as_slice()),
        );
        self.dashboard_info.gateway_ip = gw;
        self.dashboard_info.active_interface = active;
    }

    /// Switches the language everywhere it is kept; the configuration is to
    /// be saved afterwards.
    pub fn on_language_changed(&mut self, new_lang: Language)
        ensures
            *final(self) == (LanGatewayApp {
                language: new_lang,
                config: Config { language: new_lang, ..old(self).config },
                rules_panel: RulesPanel {
                    config: Config { language: new_lang, ..old(self).rules_panel.config },
                    ..old(self).rules_panel
                },
                ..*old(self)
            }),
    {
        self.language = new_lang;
        self.config.language = new_lang;
        self.rules_panel.config.language = new_lang;
    }

    /// Copies the gateway choice and the mDNS name edited in the settings
    /// panel into the configuration; returns whether anything changed, so
    /// that the configuration is to be saved.
    pub fn save_config_deferred(&mut self) -> (changed: bool)
        ensures
            final(self).config.preferred_gateway_ip@ == old(self).settings_panel.preferred_gateway_ip@,
            final(self).config.mdns_hostname@ == old(self).settings_panel.mdns_hostname@,
            final(self).rules_panel.config.preferred_gateway_ip@ == (if old(self).config.preferred_gateway_ip@ != old(self).settings_panel.preferred_gateway_ip@ {
                old(self).settings_panel.preferred_gateway_ip@
            } else {
                old(self).rules_panel.config.preferred_gateway_ip@
            }),
            final(self).rules_panel.config.mdns_hostname@ == (if old(self).config.mdns_hostname@
                != old(self).settings_panel.mdns_hostname@ {
                old(self).settings_panel.mdns_hostname@
            } else {
                old(self).rules_panel.config.mdns_hostname@
            }),
            changed == (old(self).config.preferred_gateway_ip@ != old(self).settings_panel.preferred_gateway_ip@ || old(self).config.mdns_hostname@ != old(self).settings_panel.mdns_hostname@),
            *final(self) == (LanGatewayApp {
                config: Config {
                    preferred_gateway_ip: final(self).config.preferred_gateway_ip,
                    mdns_hostname: final(self).config.mdns_hostname,
                    ..old(self).config
                },
                rules_panel: RulesPanel {
                    config: Config {
                        preferred_gateway_ip: final(self).rules_panel.config.preferred_gateway_ip,
                        mdns_hostname: final(self).rules_panel.config.mdns_hostname,
                        ..old(self).rules_panel.config
                    },
                    ..old(self).rules_panel
                },
                ..*old(self)
            }),
    {
        let mut changed = false;
        if self.config.preferred_gateway_ip != self.settings_panel.preferred_gateway_ip {
            self.config.preferred_gateway_ip = self.settings_panel.preferred_gateway_ip.clone();
            self.rules_panel.config.preferred_gateway_ip =
                self.settings_panel.preferred_gateway_ip.clone();
            changed = true;
        }
        if self.config.mdns_hostname != self.settings_panel.mdns_hostname {
            self.config.mdns_hostname = self.settings_panel.mdns_hostname.clone();
            self.rules_panel.config.mdns_hostname = self.settings_panel.mdns_hostname.clone();
            changed = true;
        }
        changed
    }

    /// Takes in the language chosen on the settings page; returns whether it
    /// changed, so that the configuration is to be saved.
    pub fn apply_language_choice(&mut self, chosen: Language) -> (changed: bool)
        ensures
            changed == (chosen != old(self).language),
            changed ==> *final(self) == (LanGatewayApp {
                language: chosen,
                config: Config { language: chosen, ..old(self).config },
                rules_panel: RulesPanel {
                    config: Config { language: chosen, ..old(self).rules_panel.config },
                    ..old(self).rules_panel
                },
                ..*old(self)
            }),
            !changed ==> *final(self) == *old(self),
    {
        if chosen == self.language {
            return false;
        }
        self.on_language_changed(chosen);
        true
    }

    /// Takes in an edit of the settings page, given the gateway choice it
    /// showed before: when the choice changed, the edited values go into
    /// the configuration and the gateway address is chosen again. Returns
    /// whether the configuration is to be saved.
    pub fn apply_settings_edit(&mut self, previous_choice: &str) -> (save: bool)
        ensures
            old(self).settings_panel.preferred_gateway_ip@ == previous_choice@ ==> !save
                && *final(self) == *old(self),
            old(self).settings_panel.preferred_gateway_ip@ != previous_choice@ ==> {
                &&& final(self).config.preferred_gateway_ip@
                    == old(self).settings_panel.preferred_gateway_ip@
                &&& final(self).config.mdns_hostname@ == old(self).settings_panel.mdns_hostname@
                &&& save == (old(self).config.preferred_gateway_ip@
                    != old(self).settings_panel.preferred_gateway_ip@
                    || old(self).config.mdns_hostname@ != old(self).settings_panel.mdns_hostname@)
                &&& final(self).dashboard_info.gateway_ip@ == preferred_ip(
                    distinct_ipv4s(ifaces_view(old(self).dashboard_info.interfaces@)),
                    old(self).settings_panel.preferred_gateway_ip@,
                    ifaces_view(old(self).dashboard_info.interfaces@),
                )
                &&& final(self).dashboard_info.active_interface@ == interface_name(
                    final(self).dashboard_info.gateway_ip@,
                    old(self).dashboard_info.interfaces@,
                )
            },
    {
        let prev = string_of(previous_choice);
        if self.settings_panel.preferred_gateway_ip == prev {
            return false;
        }
        let save = self.save_config_deferred();
        self.recompute_gateway_ip_from_ui();
        save
    }

    /// Once the first refresh is in, starts the first health check, once;
    /// returns whether the check is to be run now.
    pub fn poll_initial_health_check(&mut self) -> (start: bool)
        ensures
            start == (old(self).initial_refresh_done && !old(self).initial_health_started
                && !old(self).rules_panel.health_check_running),
            start ==> *final(self) == (LanGatewayApp {
                initial_health_started: true,
                rules_panel: RulesPanel { health_check_running: true, ..old(self).rules_panel },
                ..*old(self)
            }),
            !start ==> *final(self) == *old(self),
    {
        if self.initial_refresh_done && !self.initial_health_started
            && !self.rules_panel.health_check_running {
            self.initial_health_started = true;
            self.rules_panel.start_health_check();
            return true;
        }
        false
    }

    /// What the status bar shows for the gateway: a refresh under way comes
    /// first, then the lack of a usable address.
    pub fn gateway_shown(&self) -> (r: GatewayShown)
        ensures
            r == (if self.dashboard_info.refresh_state is Refreshing {
                GatewayShown::Initializing
            } else if self.dashboard_info.gateway_ip@.len() == 0 {
                GatewayShown::NoUsableAddress
            } else {
                GatewayShown::Address
            }),
    {
        if let RefreshState::Refreshing = self.dashboard_info.refresh_state {
            return GatewayShown::Initializing;
        }
        if self.dashboard_info.gateway_ip.as_str().unicode_len() == 0 {
            GatewayShown::NoUsableAddress
        } else {
            GatewayShown::Address
        }
    }

    /// The window must keep redrawing while a refresh or a health check runs.
    pub fn needs_repaint(&self) -> (r: bool)
        ensures
            r == (self.dashboard_info.refresh_state is Refreshing
                || self.rules_panel.health_check_running),
    {
        let refreshing = match self.dashboard_info.refresh_state {
            RefreshState::Refreshing => true,
            _ => false,
        };
        refreshing || self.rules_panel.health_check_running
    }
}

} // verus!
