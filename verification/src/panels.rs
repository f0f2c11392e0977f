//! The dashboard and settings panels' own state.
use vstd::prelude::*;
use crate::model::{DashboardInfo, InterfaceInfo, InterfaceView, ifaces_view};
use crate::network::{iface_from, iface_of, is_usable_gateway_ipv4, usable_only};
use crate::text::{string_of, sv};

verus! {

/// The dashboard panel: the error of the last attempt to restart elevated.
pub struct DashboardPanel {
    pub elevation_error: Option<String>,
}

impl DashboardPanel {
    pub fn new() -> (r: Self)
        ensures
            r.elevation_error is None,
    {
        DashboardPanel { elevation_error: None }
    }
}

/// The settings panel: the values being edited.
pub struct SettingsPanel {
    pub mdns_hostname: String,
    pub preferred_gateway_ip: String,
    pub interfaces: Vec<InterfaceInfo>,
    pub config_path: String,
}

/// The addresses of the interfaces, in order.
pub open spec fn addresses(ifs: Seq<InterfaceView>) -> Seq<Seq<char>> {
    ifs.map_values(|i: InterfaceView| i.ipv4)
}

impl SettingsPanel {
    pub fn new() -> (r: Self)
        ensures
            r.mdns_hostname@ == "gateway"@,
            r.preferred_gateway_ip@ == "auto"@,
            r.interfaces@.len() == 0,
            r.config_path@ == "C:\\ProgramData\\LanGateway\\config.toml"@,
    {
        SettingsPanel {
            mdns_hostname: string_of("gateway"),
            preferred_gateway_ip: string_of("auto"),
            interfaces: Vec::new(),
            config_path: string_of("C:\\ProgramData\\LanGateway\\config.toml"),
        }
    }

    /// The addresses offered as the gateway: the dashboard's usable
    /// addresses, or, while it has none, the usable addresses of the
    /// interfaces this panel knows.
    pub fn gateway_choices(&self, info: &DashboardInfo) -> (r: Vec<String>)
        ensures
            sv(r@) == (if info.local_ipv4@.len() > 0 {
                sv(info.local_ipv4@)
            } else {
                usable_only(addresses(ifaces_view(self.interfaces@)))
            }),
    {
        if info.local_ipv4.len() > 0 {
            let mut r: Vec<String> = Vec::new();
            let mut i: usize = 0;
            while i < info.local_ipv4.len()
                invariant
                    i <= info.local_ipv4.len(),
                    sv(r@) == sv(info.local_ipv4@).take(i as int),
                decreases info.local_ipv4.len() - i,
            {
                let ghost before = sv(r@);
                r.push(info.local_ipv4[i].clone());
                assert(sv(r@) =~= before.push(info.local_ipv4@[i as int]@));
                assert(sv(info.local_ipv4@).take(i + 1) =~= sv(info.local_ipv4@).take(
                    i as int,
                ).push(info.local_ipv4@[i as int]@));
                i += 1;
            }
            assert(sv(info.local_ipv4@).take(info.local_ipv4.len() as int) =~= sv(
                info.local_ipv4@,
            ));
            return r;
        }
        let ghost all = addresses(ifaces_view(self.interfaces@));
        let mut r: Vec<String> = Vec::new();
        let mut k: usize = 0;
        assert(sv(r@) =~= usable_only(all.take(0)));
        while k < self.interfaces.len()
            invariant
                k <= self.interfaces.len(),
                all == addresses(ifaces_view(self.interfaces@)),
                sv(r@) == usable_only(all.take(k as int)),
            decreases self.interfaces.len() - k,
        {
            assert(all.take(k + 1).drop_last() =~= all.take(k as int));
            assert(all.take(k + 1).last() == self.interfaces@[k as int].ipv4@);
            let ghost before = sv(r@);
            if is_usable_gateway_ipv4(self.interfaces[k].ipv4.as_str()) {
                r.push(self.interfaces[k].ipv4.clone());
                assert(sv(r@) =~= before.push(self.interfaces@[k as int].ipv4@));
            }
            k += 1;
        }
        assert(all.take(self.interfaces.len() as int) =~= all);
        r
    }
}

/// The interface that carries a gateway choice, as its label names it: the
/// name of the first interface with that address and whether it is a
/// suspected virtual adapter; `None` when no interface has the address.
pub fn choice_interface(ip: &str, interfaces: &[InterfaceInfo]) -> (r: Option<(String, bool)>)
    ensures
        match iface_of(ip@, ifaces_view(interfaces@)) {
            Some(j) => r matches Some((n, v)) && n@ == interfaces@[j].name@ && v
                == interfaces@[j].is_virtual,
            None => r is None,
        },
{
    let ghost ifs = ifaces_view(interfaces@);
    let addr = string_of(ip);
    let mut j: usize = 0;
    while j < interfaces.len()
        invariant
            j <= interfaces.len(),
            ifs == ifaces_view(interfaces@),
            addr@ == ip@,
            iface_of(ip@, ifs) == iface_from(ip@, ifs, j as int),
        decreases interfaces.len() - j,
    {
        assert(ifs[j as int].ipv4 == interfaces@[j as int].ipv4@);
        if interfaces[j].ipv4 == addr {
            return Some((interfaces[j].name.clone(), interfaces[j].is_virtual));
        }
        j += 1;
    }
    None
}

} // verus!
