//! The configuration: forwarding rules and settings, its defaults, where it
//! lives, and which file a start-up reads it from.
use vstd::prelude::*;
use crate::model::{ForwardRule, ForwardRuleView, Language, rules_view};
use crate::text::string_of;

verus! {

/// The configuration saved as TOML.
#[derive(Debug, Clone)]
pub struct Config {
    pub rules: Vec<ForwardRule>,
    pub mdns_enabled: bool,
    pub mdns_hostname: String,
    pub language: Language,
    pub preferred_gateway_ip: String,
}

pub struct ConfigView {
    pub rules: Seq<ForwardRuleView>,
    pub mdns_enabled: bool,
    pub mdns_hostname: Seq<char>,
    pub language: Language,
    pub preferred_gateway_ip: Seq<char>,
}

impl View for Config {
    type V = ConfigView;

    open spec fn view(&self) -> ConfigView {
        ConfigView {
            rules: rules_view(self.rules@),
            mdns_enabled: self.mdns_enabled,
            mdns_hostname: self.mdns_hostname@,
            language: self.language,
            preferred_gateway_ip: self.preferred_gateway_ip@,
        }
    }
}

/// The language of a configuration that names none.
pub fn default_language() -> (r: Language)
    ensures
        r == Language::ZhCn,
{
    Language::ZhCn
}

/// The gateway choice of a configuration that names none: automatic.
pub fn default_preferred_gateway_ip() -> (r: String)
    ensures
        r@ == "auto"@,
{
    string_of("auto")
}

/// The configuration of a fresh start.
pub open spec fn default_config() -> ConfigView {
    ConfigView {
        rules: seq![],
        mdns_enabled: false,
        mdns_hostname: seq![],
        language: Language::ZhCn,
        preferred_gateway_ip: "auto"@,
    }
}

impl Default for Config {
    fn default() -> (r: Self)
        ensures
            r@ == default_config(),
    {
        let r = Config {
            rules: Vec::new(),
            mdns_enabled: false,
            mdns_hostname: String::new(),
            language: default_language(),
            preferred_gateway_ip: default_preferred_gateway_ip(),
        };
        assert(r@.rules =~= Seq::<ForwardRuleView>::empty());
        r
    }
}

/// The machine-level configuration directory.
pub open spec fn config_dir_text() -> Seq<char> {
    "C:\\ProgramData\\LanGateway"@
}

/// Which file a start-up reads the configuration from.
#[derive(Debug, Clone, Copy, PartialEq, Eq, Structural)]
pub enum ConfigSource {
    /// The machine-level file.
    Current,
    /// The file next to the program, to be copied to the machine-level place.
    Legacy,
    /// Neither: the defaults.
    Fresh,
}

impl Config {
    /// The machine-level configuration directory.
    pub fn config_dir() -> (r: String)
        ensures
            r@ == config_dir_text(),
    {
        string_of("C:\\ProgramData\\LanGateway")
    }

    /// The name of the configuration file in its directory.
    pub fn config_file_name() -> (r: String)
        ensures
            r@ == "config.toml"@,
    {
        string_of("config.toml")
    }

    /// Where a start-up reads the configuration from: the machine-level file
    /// when it exists, else the legacy file next to the program (migrated),
    /// else nowhere.
    pub fn config_source(current_exists: bool, legacy_exists: bool) -> (r: ConfigSource)
        ensures
            r == (if current_exists {
                ConfigSource::Current
            } else if legacy_exists {
                ConfigSource::Legacy
            } else {
                ConfigSource::Fresh
            }),
    {
        if current_exists {
            ConfigSource::Current
        } else if legacy_exists {
            ConfigSource::Legacy
        } else {
            ConfigSource::Fresh
        }
    }

    /// A copy of the configuration.
    pub fn duplicate(&self) -> (r: Config)
        ensures
            r@ == self@,
    {
        let mut rules: Vec<ForwardRule> = Vec::new();
        let mut i: usize = 0;
        while i < self.rules.len()
            invariant
                i <= self.rules.len(),
                rules_view(rules@) == rules_view(self.rules@).take(i as int),
            decreases self.rules.len() - i,
        {
            let ghost before = rules_view(rules@);
            let r = self.rules[i].duplicate();
            rules.push(r);
            assert(rules_view(rules@) =~= before.push(self.rules@[i as int]@));
            assert(rules_view(self.rules@).take(i + 1) =~= rules_view(self.rules@).take(
                i as int,
            ).push(self.rules@[i as int]@));
            i += 1;
        }
        assert(rules_view(self.rules@).take(self.rules.len() as int) =~= rules_view(
            self.rules@,
        ));
        Config {
            rules,
            mdns_enabled: self.mdns_enabled,
            mdns_hostname: self.mdns_hostname.clone(),
            language: self.language,
            preferred_gateway_ip: self.preferred_gateway_ip.clone(),
        }
    }
}

} // verus!
