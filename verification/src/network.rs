//! Network interfaces: reading them from `ipconfig /all` text or from the
//! records that PowerShell reports, telling virtual adapters apart, and
//! choosing the address that serves as the gateway's entry point.
use vstd::prelude::*;
use crate::model::{InterfaceInfo, InterfaceView, ifaces_view};
use crate::text::{
    chars_of, chars_of_string, contains_seq, dv, ends_with, last_piece, last_piece_of, lines_of,
    lines_seq, parse_uint, parse_unsigned, replace_seq, replace_str, split_char, split_on,
    starts_with, str_contains, str_eq, str_has_prefix, str_has_suffix, string_from_chars,
    string_of, strip_trailing, sv, trim, trim_end_char, trim_seq,
};

verus! {

// ---------------------------------------------------------------------------
// Virtual adapters
// ---------------------------------------------------------------------------

/// What `str::to_lowercase` gives for a string (Unicode lower case mapping).
pub uninterp spec fn lowercase_of(s: Seq<char>) -> Seq<char>;

/// ASCII text with its capital letters made small.
pub open spec fn ascii_lowercase(s: Seq<char>) -> Seq<char> {
    s.map_values(|c: char| if 'A' <= c && c <= 'Z' { ((c as u32) + 32) as char } else { c })
}

/// `str::to_lowercase`: the string mapped to lower case by Unicode's
/// lower-case mapping. Stated: the result depends on the text alone, and
/// on ASCII text it makes capital letters small and keeps everything
/// else; the mapping of other characters is not stated.
#[verifier::external_body]
fn to_lowercase(s: &str) -> (r: String)
    ensures
        r@ == lowercase_of(s@),
        (forall|i: int| 0 <= i < s@.len() ==> (#[trigger] s@[i] as u32) < 128) ==> r@
            == ascii_lowercase(s@),
{
    s.to_lowercase()
}

/// Words that mark an adapter as virtual (tunnels, VPNs, hypervisors...).
pub open spec fn virtual_keywords() -> Seq<Seq<char>> {
    seq![
        "hyper-v"@,
        "wsl"@,
        "docker"@,
        "vpn"@,
        "virtual"@,
        "tun"@,
        "tap"@,
        "clash"@,
        "vethernet"@,
        "vmware"@,
        "virtualbox"@,
        "tailscale"@,
        "zerotier"@,
        "wireguard"@,
        "pangp"@,
        "sangfor"@,
        "easyconnect"@,
        "loopback"@,
        "pseudo"@,
        "tunnel"@,
        "6to4"@,
        "teredo"@,
        "isatap"@,
        "bluetooth"@,
        "wan miniport"@,
        "vbox"@,
        "host-only"@,
    ]
}

/// Lower-cased text that contains one of the keywords.
pub open spec fn has_virtual_keyword(lower: Seq<char>) -> bool {
    exists|k: int|
        0 <= k < virtual_keywords().len() && #[trigger] contains_seq(lower, virtual_keywords()[k])
}

/// An adapter is taken for virtual when its lower-cased name contains one
/// of the keywords.
pub open spec fn is_virtual_name(name: Seq<char>) -> bool {
    has_virtual_keyword(lowercase_of(name))
}

/// Whether an adapter is taken for virtual, from its name.
pub fn is_virtual_adapter(name: &str) -> (r: bool)
    ensures
        r == is_virtual_name(name@),
        (forall|i: int| 0 <= i < name@.len() ==> (#[trigger] name@[i] as u32) < 128) ==> r
            == has_virtual_keyword(ascii_lowercase(name@)),
{
    let lower = to_lowercase(name);
    has_virtual_keyword_in(lower.as_str())
}

/// Whether lower-cased text contains one of the keywords of virtual
/// adapters.
pub fn has_virtual_keyword_in(lower: &str) -> (r: bool)
    ensures
        r == has_virtual_keyword(lower@),
{
    let lc = chars_of(lower);
    let keywords: Vec<&str> = vec![
        "hyper-v",
        "wsl",
        "docker",
        "vpn",
        "virtual",
        "tun",
        "tap",
        "clash",
        "vethernet",
        "vmware",
        "virtualbox",
        "tailscale",
        "zerotier",
        "wireguard",
        "pangp",
        "sangfor",
        "easyconnect",
        "loopback",
        "pseudo",
        "tunnel",
        "6to4",
        "teredo",
        "isatap",
        "bluetooth",
        "wan miniport",
        "vbox",
        "host-only",
    ];
    assert(keywords@.map_values(|k: &str| k@) =~= virtual_keywords());
    let mut k: usize = 0;
    while k < keywords.len()
        invariant
            k <= keywords.len(),
            keywords@.map_values(|k: &str| k@) == virtual_keywords(),
            lc@ == lower@,
            forall|j: int| 0 <= j < k ==> !contains_seq(lower@, virtual_keywords()[j]),
        decreases keywords.len() - k,
    {
        assert(keywords@[k as int]@ == virtual_keywords()[k as int]);
        if str_contains(&lc, keywords[k]) {
            return true;
        }
        k += 1;
    }
    false
}

/// A lower-cased name counts as virtual exactly when it contains one of
/// the words of tunnels, VPNs, hypervisors and virtual switches: hyper-v,
/// wsl, docker, vpn, virtual, tun, tap, clash, vethernet, vmware,
/// virtualbox, tailscale, zerotier, wireguard, pangp, sangfor, easyconnect,
/// loopback, pseudo, tunnel, 6to4, teredo, isatap, bluetooth, wan miniport,
/// vbox, host-only.
pub proof fn virtual_names_are_those_with_a_keyword(lower: Seq<char>)
    ensures
        has_virtual_keyword(lower) <==> (contains_seq(lower, "hyper-v"@)
            || contains_seq(lower, "wsl"@)
            || contains_seq(lower, "docker"@)
            || contains_seq(lower, "vpn"@)
            || contains_seq(lower, "virtual"@)
            || contains_seq(lower, "tun"@)
            || contains_seq(lower, "tap"@)
            || contains_seq(lower, "clash"@)
            || contains_seq(lower, "vethernet"@)
            || contains_seq(lower, "vmware"@)
            || contains_seq(lower, "virtualbox"@)
            || contains_seq(lower, "tailscale"@)
            || contains_seq(lower, "zerotier"@)
            || contains_seq(lower, "wireguard"@)
            || contains_seq(lower, "pangp"@)
            || contains_seq(lower, "sangfor"@)
            || contains_seq(lower, "easyconnect"@)
            || contains_seq(lower, "loopback"@)
            || contains_seq(lower, "pseudo"@)
            || contains_seq(lower, "tunnel"@)
            || contains_seq(lower, "6to4"@)
            || contains_seq(lower, "teredo"@)
            || contains_seq(lower, "isatap"@)
            || contains_seq(lower, "bluetooth"@)
            || contains_seq(lower, "wan miniport"@)
            || contains_seq(lower, "vbox"@)
            || contains_seq(lower, "host-only"@)),
{
    assert(virtual_keywords().len() == 27);
    assert(virtual_keywords()[0] == "hyper-v"@);
    assert(virtual_keywords()[1] == "wsl"@);
    assert(virtual_keywords()[2] == "docker"@);
    assert(virtual_keywords()[3] == "vpn"@);
    assert(virtual_keywords()[4] == "virtual"@);
    assert(virtual_keywords()[5] == "tun"@);
    assert(virtual_keywords()[6] == "tap"@);
    assert(virtual_keywords()[7] == "clash"@);
    assert(virtual_keywords()[8] == "vethernet"@);
    assert(virtual_keywords()[9] == "vmware"@);
    assert(virtual_keywords()[10] == "virtualbox"@);
    assert(virtual_keywords()[11] == "tailscale"@);
    assert(virtual_keywords()[12] == "zerotier"@);
    assert(virtual_keywords()[13] == "wireguard"@);
    assert(virtual_keywords()[14] == "pangp"@);
    assert(virtual_keywords()[15] == "sangfor"@);
    assert(virtual_keywords()[16] == "easyconnect"@);
    assert(virtual_keywords()[17] == "loopback"@);
    assert(virtual_keywords()[18] == "pseudo"@);
    assert(virtual_keywords()[19] == "tunnel"@);
    assert(virtual_keywords()[20] == "6to4"@);
    assert(virtual_keywords()[21] == "teredo"@);
    assert(virtual_keywords()[22] == "isatap"@);
    assert(virtual_keywords()[23] == "bluetooth"@);
    assert(virtual_keywords()[24] == "wan miniport"@);
    assert(virtual_keywords()[25] == "vbox"@);
    assert(virtual_keywords()[26] == "host-only"@);
    if has_virtual_keyword(lower) {
        let k = choose|k: int|
            0 <= k < virtual_keywords().len() && #[trigger] contains_seq(lower, virtual_keywords()[k]);
        assert(contains_seq(lower, virtual_keywords()[k]));
    }
}

// ---------------------------------------------------------------------------
// `ipconfig /all`
// ---------------------------------------------------------------------------

/// What the reader of `ipconfig /all` has gathered: finished interfaces and
/// the name, address and MAC of the adapter section being read.
pub struct IpconfigState {
    pub out: Seq<InterfaceView>,
    pub name: Seq<char>,
    pub ipv4: Seq<char>,
    pub mac: Seq<char>,
}

/// Closes the current section (at the next adapter header or at the end of
/// the text): it yields an interface when it has both a name and an IPv4
/// address.
pub open spec fn ipconfig_flush(st: IpconfigState) -> Seq<InterfaceView> {
    if st.name.len() > 0 && st.ipv4.len() > 0 {
        st.out.push(
            InterfaceView {
                name: st.name,
                ipv4: st.ipv4,
                mac: st.mac,
                is_virtual: is_virtual_name(st.name),
            },
        )
    } else {
        st.out
    }
}

/// The address on an `IPv4 Address . . . : a.b.c.d(Preferred)` line.
pub open spec fn ipconfig_address(t: Seq<char>) -> Seq<char> {
    trim_seq(
        replace_seq(
            replace_seq(trim_seq(last_piece(t, ':')), "(Preferred)"@, ""@),
            "(首选)"@,
            ""@,
        ),
    )
}

/// One line of `ipconfig /all`. Blank lines separate an adapter header
/// from its details as well as adapters from one another, so they close
/// nothing: a section ends only at the next header.
pub open spec fn ipconfig_step(st: IpconfigState, line: Seq<char>) -> IpconfigState {
    let t = trim_seq(line);
    if t.len() == 0 {
        st
    } else if starts_with(line, "Windows IP"@) {
        st
    } else if !starts_with(line, " "@) && !starts_with(line, "\t"@) && ends_with(line, ":"@) {
        IpconfigState {
            out: ipconfig_flush(st),
            name: strip_trailing(t, ':'),
            ipv4: seq![],
            mac: seq![],
        }
    } else if starts_with(t, "IPv4 Address"@) || contains_seq(t, "IPv4 地址"@) {
        let a = ipconfig_address(t);
        if a.len() > 0 {
            IpconfigState { ipv4: a, ..st }
        } else {
            st
        }
    } else if starts_with(t, "Physical Address"@) || contains_seq(t, "物理地址"@) {
        IpconfigState { mac: trim_seq(last_piece(t, ':')), ..st }
    } else {
        st
    }
}

pub open spec fn ipconfig_from(lines: Seq<Seq<char>>, i: int, st: IpconfigState) -> Seq<
    InterfaceView,
>
    decreases lines.len() - i,
{
    if i < 0 || i >= lines.len() {
        ipconfig_flush(st)
    } else {
        ipconfig_from(lines, i + 1, ipconfig_step(st, lines[i]))
    }
}

/// The interfaces described by the text of `ipconfig /all`.
pub open spec fn ipconfig_interfaces(text: Seq<char>) -> Seq<InterfaceView> {
    ipconfig_from(
        lines_seq(text),
        0,
        IpconfigState { out: seq![], name: seq![], ipv4: seq![], mac: seq![] },
    )
}

fn flush_section(out: &mut Vec<InterfaceInfo>, name: &Vec<char>, ipv4: &Vec<char>, mac: &Vec<char>)
    ensures
        ifaces_view(final(out)@) == ipconfig_flush(
            IpconfigState { out: ifaces_view(old(out)@), name: name@, ipv4: ipv4@, mac: mac@ },
        ),
{
    if name.len() > 0 && ipv4.len() > 0 {
        let n = string_from_chars(name);
        let v = is_virtual_adapter(n.as_str());
        let ghost before = ifaces_view(out@);
        out.push(
            InterfaceInfo {
                name: n,
                ipv4: string_from_chars(ipv4),
                mac: string_from_chars(mac),
                is_virtual: v,
            },
        );
        assert(ifaces_view(out@) =~= ipconfig_flush(
            IpconfigState { out: before, name: name@, ipv4: ipv4@, mac: mac@ },
        ));
    }
}

/// Reads the adapters out of the text of `ipconfig /all`: each adapter
/// section starts at an unindented line ending in `:` and runs, across
/// blank lines, to the next such line or the end of the text; it yields an
/// interface when an IPv4 address was found in it.
pub fn parse_ipconfig(text: &str) -> (r: Vec<InterfaceInfo>)
    ensures
        ifaces_view(r@) == ipconfig_interfaces(text@),
{
    let tc = chars_of(text);
    let lines = lines_of(&tc);
    let ghost ls = dv(lines@);
    let mut out: Vec<InterfaceInfo> = Vec::new();
    let mut name: Vec<char> = Vec::new();
    let mut ipv4: Vec<char> = Vec::new();
    let mut mac: Vec<char> = Vec::new();
    let mut i: usize = 0;
    assert(ifaces_view(out@) =~= Seq::<InterfaceView>::empty());
    while i < lines.len()
        invariant
            i <= lines.len(),
            ls == dv(lines@),
            ls == lines_seq(text@),
            ipconfig_from(
                ls,
                i as int,
                IpconfigState { out: ifaces_view(out@), name: name@, ipv4: ipv4@, mac: mac@ },
            ) == ipconfig_interfaces(text@),
        decreases lines.len() - i,
    {
        let line = &lines[i];
        assert(ls[i as int] == line@);
        let ghost st = IpconfigState {
            out: ifaces_view(out@),
            name: name@,
            ipv4: ipv4@,
            mac: mac@,
        };
        let t = trim(line);
        if t.len() == 0 {
        } else if str_has_prefix(line, "Windows IP") {
        } else if !str_has_prefix(line, " ") && !str_has_prefix(line, "\t") && str_has_suffix(
            line,
            ":",
        ) {
            flush_section(&mut out, &name, &ipv4, &mac);
            name = trim_end_char(&t, ':');
            ipv4 = Vec::new();
            mac = Vec::new();
        } else if str_has_prefix(&t, "IPv4 Address") || str_contains(&t, "IPv4 地址") {
            let p = last_piece_of(&t, ':');
            let p = trim(&p);
            let p = replace_str(&p, "(Preferred)", "");
            let p = replace_str(&p, "(首选)", "");
            let a = trim(&p);
            if a.len() > 0 {
                ipv4 = a;
            }
        } else if str_has_prefix(&t, "Physical Address") || str_contains(&t, "物理地址") {
            let p = last_piece_of(&t, ':');
            mac = trim(&p);
        }
        assert(IpconfigState { out: ifaces_view(out@), name: name@, ipv4: ipv4@, mac: mac@ }
            == ipconfig_step(st, ls[i as int]));
        i += 1;
    }
    flush_section(&mut out, &name, &ipv4, &mac);
    out
}

/// Every interface gathered has a name and an IPv4 address.
pub open spec fn all_named(ifs: Seq<InterfaceView>) -> bool {
    forall|k: int| 0 <= k < ifs.len() ==> #[trigger] ifs[k].name.len() > 0 && ifs[k].ipv4.len() > 0
}

proof fn lemma_ipconfig_from_named(lines: Seq<Seq<char>>, i: int, st: IpconfigState)
    requires
        all_named(st.out),
    ensures
        all_named(ipconfig_from(lines, i, st)),
    decreases lines.len() - i,
{
    assert(all_named(ipconfig_flush(st)));
    if 0 <= i < lines.len() {
        let next = ipconfig_step(st, lines[i]);
        assert(all_named(next.out));
        lemma_ipconfig_from_named(lines, i + 1, next);
    }
}

/// Each interface read from `ipconfig /all` has a name and an IPv4
/// address: sections without an address yield nothing.
pub proof fn ipconfig_interfaces_are_named(text: Seq<char>)
    ensures
        all_named(ipconfig_interfaces(text)),
{
    lemma_ipconfig_from_named(
        lines_seq(text),
        0,
        IpconfigState { out: seq![], name: seq![], ipv4: seq![], mac: seq![] },
    );
}

// ---------------------------------------------------------------------------
// PowerShell records
// ---------------------------------------------------------------------------

/// An IPv4 address as `Get-NetIPAddress` reports it.
#[derive(Debug, Clone)]
pub struct PsIpAddr {
    pub interface_alias: String,
    pub interface_index: i32,
    pub ip_address: String,
}

/// An adapter as `Get-NetAdapter` reports it.
#[derive(Debug, Clone)]
pub struct PsAdapter {
    pub name: String,
    pub interface_description: String,
    pub interface_index: i32,
    pub mac_address: String,
}

/// The position of the first adapter at or after `j` with interface index `idx`.
pub open spec fn adapter_from(ads: Seq<PsAdapter>, idx: i32, j: int) -> Option<int>
    decreases ads.len() - j,
{
    if j < 0 || j >= ads.len() {
        None
    } else if ads[j].interface_index == idx {
        Some(j)
    } else {
        adapter_from(ads, idx, j + 1)
    }
}

/// The adapter joined to an address: the first with the same interface
/// index, when the index is not 0.
pub open spec fn joined_adapter(ip: PsIpAddr, ads: Seq<PsAdapter>) -> Option<int> {
    if ip.interface_index != 0 {
        adapter_from(ads, ip.interface_index, 0)
    } else {
        None
    }
}

/// The interface that an address record yields, if any: usable addresses
/// only, named after the joined adapter or else after the address's alias.
pub open spec fn ps_interface(ip: PsIpAddr, ads: Seq<PsAdapter>) -> Option<InterfaceView> {
    if ip.ip_address@.len() == 0 || ip.ip_address@ == "0.0.0.0"@ {
        None
    } else {
        let ad = joined_adapter(ip, ads);
        let mac = match ad {
            Some(j) => ads[j].mac_address@,
            None => ""@,
        };
        let v = is_virtual_name(ip.interface_alias@);
        if ad is Some && ads[ad->0].name@.len() > 0 {
            Some(
                InterfaceView {
                    name: ads[ad->0].name@,
                    ipv4: ip.ip_address@,
                    mac: mac,
                    is_virtual: v,
                },
            )
        } else if ip.interface_alias@.len() > 0 {
            Some(
                InterfaceView {
                    name: ip.interface_alias@,
                    ipv4: ip.ip_address@,
                    mac: mac,
                    is_virtual: v,
                },
            )
        } else {
            None
        }
    }
}

pub open spec fn ps_from(ips: Seq<PsIpAddr>, ads: Seq<PsAdapter>, i: int) -> Seq<InterfaceView>
    decreases ips.len() - i,
{
    if i < 0 || i >= ips.len() {
        seq![]
    } else {
        match ps_interface(ips[i], ads) {
            Some(v) => seq![v] + ps_from(ips, ads, i + 1),
            None => ps_from(ips, ads, i + 1),
        }
    }
}

proof fn lemma_ps_from_named(ips: Seq<PsIpAddr>, ads: Seq<PsAdapter>, i: int)
    ensures
        all_named(ps_from(ips, ads, i)),
        forall|k: int|
            0 <= k < ps_from(ips, ads, i).len() ==> #[trigger] ps_from(ips, ads, i)[k].ipv4
                != "0.0.0.0"@,
    decreases ips.len() - i,
{
    if 0 <= i < ips.len() {
        lemma_ps_from_named(ips, ads, i + 1);
        let rest = ps_from(ips, ads, i + 1);
        if let Some(v) = ps_interface(ips[i], ads) {
            assert forall|k: int| 0 <= k < (seq![v] + rest).len() implies (#[trigger] (seq![v]
                + rest)[k]).name.len() > 0 && (seq![v] + rest)[k].ipv4.len() > 0 && (seq![v]
                + rest)[k].ipv4 != "0.0.0.0"@ by {
                if k > 0 {
                    assert((seq![v] + rest)[k] == rest[k - 1]);
                }
            }
        }
    }
}

/// Each interface joined from PowerShell records has a name and an IPv4
/// address other than `0.0.0.0`.
pub proof fn powershell_interfaces_are_named(ips: Seq<PsIpAddr>, ads: Seq<PsAdapter>)
    ensures
        all_named(ps_from(ips, ads, 0)),
        forall|k: int|
            0 <= k < ps_from(ips, ads, 0).len() ==> #[trigger] ps_from(ips, ads, 0)[k].ipv4
                != "0.0.0.0"@,
{
    lemma_ps_from_named(ips, ads, 0);
}

fn find_adapter(ads: &Vec<PsAdapter>, idx: i32) -> (r: Option<usize>)
    ensures
        r matches Some(j) ==> j < ads.len() && adapter_from(ads@, idx, 0) == Some(j as int),
        r is None ==> adapter_from(ads@, idx, 0) is None,
{
    let mut j: usize = 0;
    while j < ads.len()
        invariant
            j <= ads.len(),
            adapter_from(ads@, idx, 0) == adapter_from(ads@, idx, j as int),
        decreases ads.len() - j,
    {
        if ads[j].interface_index == idx {
            return Some(j);
        }
        j += 1;
    }
    None
}

fn ps_entry(ip: &PsIpAddr, ads: &Vec<PsAdapter>) -> (r: Option<InterfaceInfo>)
    ensures
        match ps_interface(*ip, ads@) {
            Some(v) => r matches Some(x) && x@ == v,
            None => r is None,
        },
{
    let addr = chars_of_string(&ip.ip_address);
    if addr.len() == 0 || str_eq(&addr, "0.0.0.0") {
        return None;
    }
    let ad = if ip.interface_index != 0 {
        find_adapter(ads, ip.interface_index)
    } else {
        None
    };
    let mac = match ad {
        Some(j) => ads[j].mac_address.clone(),
        None => string_of(""),
    };
    let v = is_virtual_adapter(ip.interface_alias.as_str());
    let name = match ad {
        Some(j) => {
            if chars_of_string(&ads[j].name).len() > 0 {
                ads[j].name.clone()
            } else if chars_of_string(&ip.interface_alias).len() > 0 {
                ip.interface_alias.clone()
            } else {
                return None;
            }
        },
        None => {
            if chars_of_string(&ip.interface_alias).len() > 0 {
                ip.interface_alias.clone()
            } else {
                return None;
            }
        },
    };
    Some(InterfaceInfo { name, ipv4: ip.ip_address.clone(), mac, is_virtual: v })
}

/// The interfaces given by the address and adapter records of PowerShell,
/// joined by interface index; addresses that are empty or `0.0.0.0`, and
/// those for which no name is known, give none.
pub fn parse_powershell_output(ip_addrs: &Vec<PsIpAddr>, adapters: &Vec<PsAdapter>) -> (r: Vec<
    InterfaceInfo,
>)
    ensures
        ifaces_view(r@) == ps_from(ip_addrs@, adapters@, 0),
{
    let mut out: Vec<InterfaceInfo> = Vec::new();
    let mut i: usize = 0;
    while i < ip_addrs.len()
        invariant
            i <= ip_addrs.len(),
            ifaces_view(out@) + ps_from(ip_addrs@, adapters@, i as int) == ps_from(
                ip_addrs@,
                adapters@,
                0,
            ),
        decreases ip_addrs.len() - i,
    {
        let ghost before = ifaces_view(out@);
        match ps_entry(&ip_addrs[i], adapters) {
            Some(e) => {
                let ghost ev = e@;
                out.push(e);
                assert(ifaces_view(out@) =~= before.push(ev));
                assert(before.push(ev) + ps_from(ip_addrs@, adapters@, i + 1) =~= before + (seq![ev]
                    + ps_from(ip_addrs@, adapters@, i + 1)));
            },
            None => {},
        }
        i += 1;
    }
    assert(ifaces_view(out@) + ps_from(ip_addrs@, adapters@, i as int) =~= ifaces_view(out@));
    out
}

/// The interfaces to use from the PowerShell reading: its interfaces when it
/// succeeded and found at least one; `None` when `ipconfig /all` is to be
/// read instead.
pub fn interfaces_from_powershell(found: Option<Vec<InterfaceInfo>>) -> (r: Option<Vec<InterfaceInfo>>)
    ensures
        match found {
            Some(v) => if v@.len() > 0 {
                r matches Some(x) && x@ == v@
            } else {
                r is None
            },
            None => r is None,
        },
{
    match found {
        Some(v) => if v.len() > 0 {
            Some(v)
        } else {
            None
        },
        None => None,
    }
}

/// The host name in the output of `hostname`: the text without the
/// surrounding white space and line end.
pub fn hostname_from_output(text: &str) -> (r: String)
    ensures
        r@ == trim_seq(text@),
{
    string_from_chars(&trim(&chars_of(text)))
}

// ---------------------------------------------------------------------------
// Addresses
// ---------------------------------------------------------------------------

/// The addresses of the interfaces from `i` on that are not yet in `acc`
/// (nor `0.0.0.0`), appended to `acc` in order of first appearance.
pub open spec fn distinct_from(ifs: Seq<InterfaceView>, i: int, acc: Seq<Seq<char>>) -> Seq<
    Seq<char>,
>
    decreases ifs.len() - i,
{
    if i < 0 || i >= ifs.len() {
        acc
    } else {
        let ip = ifs[i].ipv4;
        if ip != "0.0.0.0"@ && !acc.contains(ip) {
            distinct_from(ifs, i + 1, acc.push(ip))
        } else {
            distinct_from(ifs, i + 1, acc)
        }
    }
}

/// The interfaces' IPv4 addresses, each once, in order, without `0.0.0.0`.
pub open spec fn distinct_ipv4s(ifs: Seq<InterfaceView>) -> Seq<Seq<char>> {
    distinct_from(ifs, 0, seq![])
}

fn contains_string(v: &Vec<String>, x: &String) -> (r: bool)
    ensures
        r == sv(v@).contains(x@),
{
    let mut k: usize = 0;
    while k < v.len()
        invariant
            k <= v.len(),
            forall|j: int| 0 <= j < k ==> sv(v@)[j] != x@,
        decreases v.len() - k,
    {
        if v[k] == *x {
            assert(sv(v@)[k as int] == x@);
            return true;
        }
        k += 1;
    }
    false
}

/// The IPv4 addresses of the interfaces, each once, in the order in which
/// they first appear; `0.0.0.0` is left out.
pub fn ipv4_addresses_from(interfaces: &[InterfaceInfo]) -> (r: Vec<String>)
    ensures
        sv(r@) == distinct_ipv4s(ifaces_view(interfaces@)),
{
    let ghost ifs = ifaces_view(interfaces@);
    let mut out: Vec<String> = Vec::new();
    let mut i: usize = 0;
    assert(sv(out@) =~= Seq::<Seq<char>>::empty());
    while i < interfaces.len()
        invariant
            i <= interfaces.len(),
            ifs == ifaces_view(interfaces@),
            distinct_from(ifs, i as int, sv(out@)) == distinct_ipv4s(ifs),
        decreases interfaces.len() - i,
    {
        let ip = &interfaces[i].ipv4;
        let ic = chars_of_string(ip);
        assert(ifs[i as int].ipv4 == ip@);
        if !str_eq(&ic, "0.0.0.0") && !contains_string(&out, ip) {
            let ghost before = sv(out@);
            out.push(ip.clone());
            assert(sv(out@) =~= before.push(ip@));
        }
        i += 1;
    }
    out
}

/// An address that can serve as the gateway: not loopback (`127.`), not
/// link-local (`169.254.`), not in the benchmark range that tunnels use
/// (`198.18.`), and not `0.0.0.0`.
pub open spec fn is_usable_ip(ip: Seq<char>) -> bool {
    &&& !starts_with(ip, "127."@)
    &&& !starts_with(ip, "169.254."@)
    &&& !starts_with(ip, "198.18."@)
    &&& ip != "0.0.0.0"@
}

pub fn is_usable_gateway_ipv4(ip: &str) -> (r: bool)
    ensures
        r == is_usable_ip(ip@),
{
    let c = chars_of(ip);
    !str_has_prefix(&c, "127.") && !str_has_prefix(&c, "169.254.") && !str_has_prefix(
        &c,
        "198.18.",
    ) && !str_eq(&c, "0.0.0.0")
}

/// A link-local (APIPA) address.
pub fn is_apipa_ipv4(ip: &str) -> (r: bool)
    ensures
        r == starts_with(ip@, "169.254."@),
{
    let c = chars_of(ip);
    str_has_prefix(&c, "169.254.")
}

/// The addresses of `s` that can serve as the gateway, in order.
pub open spec fn usable_only(s: Seq<Seq<char>>) -> Seq<Seq<char>>
    decreases s.len(),
{
    if s.len() == 0 {
        s
    } else if is_usable_ip(s.last()) {
        usable_only(s.drop_last()).push(s.last())
    } else {
        usable_only(s.drop_last())
    }
}

/// The interfaces' distinct IPv4 addresses that can serve as the gateway.
pub fn usable_gateway_ipv4_addresses(interfaces: &[InterfaceInfo]) -> (r: Vec<String>)
    ensures
        sv(r@) == usable_only(distinct_ipv4s(ifaces_view(interfaces@))),
{
    let all = ipv4_addresses_from(interfaces);
    let mut out: Vec<String> = Vec::new();
    let mut k: usize = 0;
    assert(sv(out@) =~= usable_only(sv(all@).take(0)));
    while k < all.len()
        invariant
            k <= all.len(),
            sv(out@) == usable_only(sv(all@).take(k as int)),
        decreases all.len() - k,
    {
        assert(sv(all@).take(k + 1).drop_last() =~= sv(all@).take(k as int));
        assert(sv(all@).take(k + 1).last() == all@[k as int]@);
        let ghost before = sv(out@);
        if is_usable_gateway_ipv4(all[k].as_str()) {
            out.push(all[k].clone());
            assert(sv(out@) =~= before.push(all@[k as int]@));
        }
        k += 1;
    }
    assert(sv(all@).take(all@.len() as int) =~= sv(all@));
    out
}

// ---------------------------------------------------------------------------
// Choosing the gateway address
// ---------------------------------------------------------------------------

/// The second number of a dotted address, read as a `u8`.
pub open spec fn second_octet(ip: Seq<char>) -> Option<int> {
    let p = split_char(ip, '.');
    if p.len() > 1 {
        parse_unsigned(p[1], 255)
    } else {
        None
    }
}

/// In 172.16.0.0/12.
pub open spec fn in_172_private(ip: Seq<char>) -> bool {
    starts_with(ip, "172."@) && match second_octet(ip) {
        Some(n) => 16 <= n <= 31,
        None => false,
    }
}

/// A private LAN address: 10/8, 172.16/12 or 192.168/16.
pub open spec fn is_lan(ip: Seq<char>) -> bool {
    starts_with(ip, "10."@) || starts_with(ip, "192.168."@) || in_172_private(ip)
}

/// The order of preference among LAN ranges: 10/8, then 172.16/12, then
/// 192.168/16.
pub open spec fn lan_rank(ip: Seq<char>) -> int {
    if starts_with(ip, "10."@) {
        1
    } else if in_172_private(ip) {
        2
    } else if starts_with(ip, "192.168."@) {
        3
    } else {
        4
    }
}

/// The position of the first interface at or after `j` with address `ip`.
pub open spec fn iface_from(ip: Seq<char>, ifs: Seq<InterfaceView>, j: int) -> Option<int>
    decreases ifs.len() - j,
{
    if j < 0 || j >= ifs.len() {
        None
    } else if ifs[j].ipv4 == ip {
        Some(j)
    } else {
        iface_from(ip, ifs, j + 1)
    }
}

/// The first interface with address `ip`.
pub open spec fn iface_of(ip: Seq<char>, ifs: Seq<InterfaceView>) -> Option<int> {
    iface_from(ip, ifs, 0)
}

/// The tests, in order of preference, that pick the gateway address among
/// the usable ones: a LAN address not on a known virtual adapter, in the
/// ranges 10/8 (1), 172.16/12 (2), 192.168/16 (3); then any LAN address (4);
/// then one on a known physical adapter (5); then any (6).
pub open spec fn preference(tier: int, ip: Seq<char>, ifs: Seq<InterfaceView>) -> bool {
    let not_virtual = match iface_of(ip, ifs) {
        Some(j) => !ifs[j].is_virtual,
        None => true,
    };
    let physical = match iface_of(ip, ifs) {
        Some(j) => !ifs[j].is_virtual,
        None => false,
    };
    if 1 <= tier <= 3 {
        is_lan(ip) && not_virtual && lan_rank(ip) == tier
    } else if tier == 4 {
        is_lan(ip)
    } else if tier == 5 {
        physical
    } else {
        true
    }
}

/// The first usable address from `ips[j..]` that passes test `tier`.
pub open spec fn pick_from(ips: Seq<Seq<char>>, tier: int, ifs: Seq<InterfaceView>, j: int) -> Option<
    Seq<char>,
>
    decreases ips.len() - j,
{
    if j < 0 || j >= ips.len() {
        None
    } else if is_usable_ip(ips[j]) && preference(tier, ips[j], ifs) {
        Some(ips[j])
    } else {
        pick_from(ips, tier, ifs, j + 1)
    }
}

/// The address chosen by the first test, from `tier` on, that some usable
/// address passes.
pub open spec fn pick_tiers(ips: Seq<Seq<char>>, tier: int, ifs: Seq<InterfaceView>) -> Option<
    Seq<char>,
>
    decreases 7 - tier,
{
    if tier < 1 || tier > 6 {
        None
    } else {
        match pick_from(ips, tier, ifs, 0) {
            Some(ip) => Some(ip),
            None => pick_tiers(ips, tier + 1, ifs),
        }
    }
}

/// The gateway address: a manual choice that is among the addresses wins;
/// otherwise the best usable address by the tests of `preference`, or the
/// empty text when no address is usable.
pub open spec fn preferred_ip(ips: Seq<Seq<char>>, preferred: Seq<char>, ifs: Seq<InterfaceView>) -> Seq<
    char,
> {
    if preferred != "auto"@ && preferred.len() > 0 && ips.contains(preferred) {
        preferred
    } else {
        match pick_tiers(ips, 1, ifs) {
            Some(ip) => ip,
            None => seq![],
        }
    }
}

fn find_interface(ip: &String, interfaces: &[InterfaceInfo]) -> (r: Option<usize>)
    ensures
        r matches Some(j) ==> j < interfaces.len() && iface_of(ip@, ifaces_view(interfaces@)) == Some(
            j as int,
        ),
        r is None ==> iface_of(ip@, ifaces_view(interfaces@)) is None,
{
    let ghost ifs = ifaces_view(interfaces@);
    let mut j: usize = 0;
    while j < interfaces.len()
        invariant
            j <= interfaces.len(),
            ifs == ifaces_view(interfaces@),
            iface_of(ip@, ifs) == iface_from(ip@, ifs, j as int),
        decreases interfaces.len() - j,
    {
        assert(ifs[j as int].ipv4 == interfaces@[j as int].ipv4@);
        if interfaces[j].ipv4 == *ip {
            return Some(j);
        }
        j += 1;
    }
    None
}

fn second_octet_of(ip: &Vec<char>) -> (r: Option<u64>)
    ensures
        r is Some <==> second_octet(ip@) is Some,
        r matches Some(n) ==> n == second_octet(ip@)->0,
{
    let parts = split_on(ip, '.');
    if parts.len() > 1 {
        assert(dv(parts@)[1] == parts@[1]@);
        parse_uint(&parts[1], 255)
    } else {
        None
    }
}

fn is_172_private(ip: &Vec<char>) -> (r: bool)
    ensures
        r == in_172_private(ip@),
{
    if !str_has_prefix(ip, "172.") {
        return false;
    }
    match second_octet_of(ip) {
        Some(n) => 16 <= n && n <= 31,
        None => false,
    }
}

fn is_lan_ip(ip: &Vec<char>) -> (r: bool)
    ensures
        r == is_lan(ip@),
{
    str_has_prefix(ip, "10.") || str_has_prefix(ip, "192.168.") || is_172_private(ip)
}

fn lan_priority(ip: &Vec<char>) -> (r: u8)
    ensures
        r == lan_rank(ip@),
{
    if str_has_prefix(ip, "10.") {
        1
    } else if is_172_private(ip) {
        2
    } else if str_has_prefix(ip, "192.168.") {
        3
    } else {
        4
    }
}

fn passes(tier: u8, ip: &String, interfaces: &[InterfaceInfo]) -> (r: bool)
    requires
        1 <= tier <= 6,
    ensures
        r == (is_usable_ip(ip@) && preference(tier as int, ip@, ifaces_view(interfaces@))),
{
    if !is_usable_gateway_ipv4(ip.as_str()) {
        return false;
    }
    let c = chars_of_string(ip);
    let iface = find_interface(ip, interfaces);
    let not_virtual = match iface {
        Some(j) => !interfaces[j].is_virtual,
        None => true,
    };
    let physical = match iface {
        Some(j) => !interfaces[j].is_virtual,
        None => false,
    };
    if tier <= 3 {
        is_lan_ip(&c) && not_virtual && lan_priority(&c) == tier
    } else if tier == 4 {
        is_lan_ip(&c)
    } else if tier == 5 {
        physical
    } else {
        true
    }
}

fn pick(ipv4s: &[String], tier: u8, interfaces: &[InterfaceInfo]) -> (r: Option<usize>)
    requires
        1 <= tier <= 6,
    ensures
        r matches Some(j) ==> j < ipv4s.len() && pick_from(
            sv(ipv4s@),
            tier as int,
            ifaces_view(interfaces@),
            0,
        ) == Some(ipv4s@[j as int]@),
        r is None ==> pick_from(sv(ipv4s@), tier as int, ifaces_view(interfaces@), 0) is None,
{
    let ghost ips = sv(ipv4s@);
    let ghost ifs = ifaces_view(interfaces@);
    let mut j: usize = 0;
    while j < ipv4s.len()
        invariant
            j <= ipv4s.len(),
            1 <= tier <= 6,
            ips == sv(ipv4s@),
            ifs == ifaces_view(interfaces@),
            pick_from(ips, tier as int, ifs, 0) == pick_from(ips, tier as int, ifs, j as int),
        decreases ipv4s.len() - j,
    {
        assert(ips[j as int] == ipv4s@[j as int]@);
        if passes(tier, &ipv4s[j], interfaces) {
            return Some(j);
        }
        j += 1;
    }
    None
}

/// Selects the LAN address that serves as the gateway's entry point; the
/// empty string when no address is usable.
pub fn select_preferred_ip(ipv4s: &[String], preferred: &str, interfaces: &[InterfaceInfo]) -> (r:
    String)
    ensures
        r@ == preferred_ip(sv(ipv4s@), preferred@, ifaces_view(interfaces@)),
{
    let pc = chars_of(preferred);
    if !str_eq(&pc, "auto") && pc.len() > 0 {
        let pref = string_of(preferred);
        if contains_string_slice(ipv4s, &pref) {
            return pref;
        }
    }
    let mut tier: u8 = 1;
    while tier <= 6
        invariant
            1 <= tier <= 7,
            !(preferred@ != "auto"@ && preferred@.len() > 0 && sv(ipv4s@).contains(preferred@)),
            pick_tiers(sv(ipv4s@), 1, ifaces_view(interfaces@)) == pick_tiers(
                sv(ipv4s@),
                tier as int,
                ifaces_view(interfaces@),
            ),
        decreases 7 - tier,
    {
        match pick(ipv4s, tier, interfaces) {
            Some(j) => {
                return ipv4s[j].clone();
            },
            None => {},
        }
        tier += 1;
    }
    String::new()
}

fn contains_string_slice(v: &[String], x: &String) -> (r: bool)
    ensures
        r == sv(v@).contains(x@),
{
    let mut k: usize = 0;
    while k < v.len()
        invariant
            k <= v.len(),
            forall|j: int| 0 <= j < k ==> sv(v@)[j] != x@,
        decreases v.len() - k,
    {
        if v[k] == *x {
            assert(sv(v@)[k as int] == x@);
            return true;
        }
        k += 1;
    }
    false
}

/// The name of the interface that carries `ip`; "Unknown" when `ip` is empty
/// or no interface carries it.
pub fn get_interface_for_ip<'a>(ip: &str, interfaces: &'a [InterfaceInfo]) -> (r: &'a str)
    ensures
        r@ == (if ip@.len() == 0 {
            "Unknown"@
        } else {
            match iface_of(ip@, ifaces_view(interfaces@)) {
                Some(j) => interfaces@[j].name@,
                None => "Unknown"@,
            }
        }),
{
    let c = chars_of(ip);
    if c.len() == 0 {
        return "Unknown";
    }
    let s = string_of(ip);
    match find_interface(&s, interfaces) {
        Some(j) => interfaces[j].name.as_str(),
        None => "Unknown",
    }
}

// ---------------------------------------------------------------------------
// Laws
// ---------------------------------------------------------------------------

proof fn lemma_distinct_from(ifs: Seq<InterfaceView>, i: int, acc: Seq<Seq<char>>, x: Seq<char>)
    requires
        0 <= i,
        acc.no_duplicates(),
        !acc.contains("0.0.0.0"@),
    ensures
        distinct_from(ifs, i, acc).no_duplicates(),
        distinct_from(ifs, i, acc).contains(x) <==> (acc.contains(x) || (x != "0.0.0.0"@
            && exists|j: int| i <= j < ifs.len() && #[trigger] ifs[j].ipv4 == x)),
    decreases ifs.len() - i,
{
    if i < ifs.len() {
        let ip = ifs[i].ipv4;
        if ip != "0.0.0.0"@ && !acc.contains(ip) {
            let acc2 = acc.push(ip);
            assert(acc2.no_duplicates()) by {
                assert forall|a: int, b: int| 0 <= a < b < acc2.len() implies acc2[a] != acc2[b] by {
                    if b == acc.len() {
                        assert(acc.contains(acc2[a]) ==> acc2[a] != ip);
                        assert(acc2[a] == acc[a]);
                    }
                }
            }
            assert(!acc2.contains("0.0.0.0"@)) by {
                if acc2.contains("0.0.0.0"@) {
                    let k = choose|k: int| 0 <= k < acc2.len() && acc2[k] == "0.0.0.0"@;
                    if k < acc.len() {
                        assert(acc[k] == "0.0.0.0"@);
                    }
                }
            }
            lemma_distinct_from(ifs, i + 1, acc2, x);
            assert(acc2.contains(x) <==> (acc.contains(x) || x == ip)) by {
                if acc2.contains(x) {
                    let k = choose|k: int| 0 <= k < acc2.len() && acc2[k] == x;
                    if k < acc.len() {
                        assert(acc[k] == x);
                    }
                }
                if acc.contains(x) {
                    let k = choose|k: int| 0 <= k < acc.len() && acc[k] == x;
                    assert(acc2[k] == x);
                }
                if x == ip {
                    assert(acc2[acc.len() as int] == x);
                }
            }
        } else {
            lemma_distinct_from(ifs, i + 1, acc, x);
        }
        if exists|j: int| i <= j < ifs.len() && #[trigger] ifs[j].ipv4 == x {
            let j = choose|j: int| i <= j < ifs.len() && #[trigger] ifs[j].ipv4 == x;
            if j > i {
                assert(i + 1 <= j < ifs.len() && ifs[j].ipv4 == x);
            }
        }
        if exists|j: int| i + 1 <= j < ifs.len() && #[trigger] ifs[j].ipv4 == x {
            let j = choose|j: int| i + 1 <= j < ifs.len() && #[trigger] ifs[j].ipv4 == x;
            assert(i <= j < ifs.len() && ifs[j].ipv4 == x);
        }
    }
}

/// The interfaces' addresses come out once each, and they are exactly the
/// addresses of the interfaces other than `0.0.0.0`.
pub proof fn distinct_ipv4s_law(ifs: Seq<InterfaceView>, x: Seq<char>)
    ensures
        distinct_ipv4s(ifs).no_duplicates(),
        distinct_ipv4s(ifs).contains(x) <==> (x != "0.0.0.0"@ && exists|j: int|
            0 <= j < ifs.len() && #[trigger] ifs[j].ipv4 == x),
{
    lemma_distinct_from(ifs, 0, seq![], x);
}

proof fn lemma_pick_from_sound(ips: Seq<Seq<char>>, tier: int, ifs: Seq<InterfaceView>, j: int)
    requires
        0 <= j,
    ensures
        pick_from(ips, tier, ifs, j) matches Some(x) ==> ips.contains(x) && is_usable_ip(x)
            && preference(tier, x, ifs),
    decreases ips.len() - j,
{
    if j < ips.len() {
        lemma_pick_from_sound(ips, tier, ifs, j + 1);
        if is_usable_ip(ips[j]) && preference(tier, ips[j], ifs) {
            assert(ips[j] == ips[j]);
        }
    }
}

proof fn lemma_pick_from_complete(
    ips: Seq<Seq<char>>,
    tier: int,
    ifs: Seq<InterfaceView>,
    j: int,
    k: int,
)
    requires
        0 <= j <= k < ips.len(),
        is_usable_ip(ips[k]),
        preference(tier, ips[k], ifs),
    ensures
        pick_from(ips, tier, ifs, j) is Some,
    decreases k - j,
{
    if j < k && !(is_usable_ip(ips[j]) && preference(tier, ips[j], ifs)) {
        lemma_pick_from_complete(ips, tier, ifs, j + 1, k);
    }
}

proof fn lemma_pick_tiers_sound(ips: Seq<Seq<char>>, tier: int, ifs: Seq<InterfaceView>)
    ensures
        pick_tiers(ips, tier, ifs) matches Some(x) ==> ips.contains(x) && is_usable_ip(x)
            && exists|t: int| tier <= t <= 6 && #[trigger] preference(t, x, ifs),
    decreases 7 - tier,
{
    if 1 <= tier <= 6 {
        lemma_pick_from_sound(ips, tier, ifs, 0);
        lemma_pick_tiers_sound(ips, tier + 1, ifs);
        if let Some(x) = pick_from(ips, tier, ifs, 0) {
            assert(preference(tier, x, ifs));
        } else if let Some(x) = pick_tiers(ips, tier + 1, ifs) {
            let t = choose|t: int| tier + 1 <= t <= 6 && #[trigger] preference(t, x, ifs);
            assert(preference(t, x, ifs));
        }
    }
}

/// The gateway address is always offered: it is empty, or one of the
/// addresses, and unless it is the manual choice it is usable (not
/// loopback, link-local, benchmark-range nor `0.0.0.0`).
pub proof fn preferred_ip_is_offered(ips: Seq<Seq<char>>, preferred: Seq<char>, ifs: Seq<InterfaceView>)
    ensures
        ({
            let r = preferred_ip(ips, preferred, ifs);
            r.len() == 0 || (ips.contains(r) && (r == preferred || is_usable_ip(r)))
        }),
{
    lemma_pick_tiers_sound(ips, 1, ifs);
}

proof fn lemma_pick_tiers_lan(ips: Seq<Seq<char>>, tier: int, ifs: Seq<InterfaceView>, k: int)
    requires
        1 <= tier <= lan_rank(ips[k]),
        0 <= k < ips.len(),
        is_usable_ip(ips[k]),
        preference(lan_rank(ips[k]), ips[k], ifs),
        lan_rank(ips[k]) <= 3,
    ensures
        pick_tiers(ips, tier, ifs) matches Some(x) && exists|t: int|
            tier <= t <= 3 && #[trigger] preference(t, x, ifs),
    decreases 7 - tier,
{
    if tier == lan_rank(ips[k]) {
        lemma_pick_from_complete(ips, tier, ifs, 0, k);
        lemma_pick_from_sound(ips, tier, ifs, 0);
        let x = pick_from(ips, tier, ifs, 0)->0;
        assert(preference(tier, x, ifs));
    } else {
        lemma_pick_from_sound(ips, tier, ifs, 0);
        if let Some(x) = pick_from(ips, tier, ifs, 0) {
            assert(preference(tier, x, ifs));
        } else {
            lemma_pick_tiers_lan(ips, tier + 1, ifs, k);
            let x = pick_tiers(ips, tier + 1, ifs)->0;
            let t = choose|t: int| tier + 1 <= t <= 3 && #[trigger] preference(t, x, ifs);
            assert(preference(t, x, ifs));
        }
    }
}

/// LAN first: without a manual choice that applies, when some usable
/// address is a LAN address not on a known virtual adapter, the gateway is
/// such an address, and of the best-ranked LAN range (10/8, then
/// 172.16/12, then 192.168/16) present.
pub proof fn preferred_ip_prefers_lan(
    ips: Seq<Seq<char>>,
    preferred: Seq<char>,
    ifs: Seq<InterfaceView>,
    k: int,
)
    requires
        !(preferred != "auto"@ && preferred.len() > 0 && ips.contains(preferred)),
        0 <= k < ips.len(),
        is_usable_ip(ips[k]),
        is_lan(ips[k]),
        match iface_of(ips[k], ifs) {
            Some(j) => !ifs[j].is_virtual,
            None => true,
        },
    ensures
        ({
            let r = preferred_ip(ips, preferred, ifs);
            &&& is_lan(r)
            &&& match iface_of(r, ifs) {
                Some(j) => !ifs[j].is_virtual,
                None => true,
            }
            &&& lan_rank(r) <= lan_rank(ips[k])
        }),
{
    assert(1 <= lan_rank(ips[k]) <= 3);
    assert(preference(lan_rank(ips[k]), ips[k], ifs));
    lemma_pick_tiers_lan(ips, 1, ifs, k);
    let x = pick_tiers(ips, 1, ifs)->0;
    let t = choose|t: int| 1 <= t <= 3 && #[trigger] preference(t, x, ifs);
    assert(preference(t, x, ifs));
    lemma_pick_tiers_rank(ips, 1, ifs, k);
}

proof fn lemma_pick_tiers_rank(ips: Seq<Seq<char>>, tier: int, ifs: Seq<InterfaceView>, k: int)
    requires
        1 <= tier <= lan_rank(ips[k]),
        0 <= k < ips.len(),
        is_usable_ip(ips[k]),
        preference(lan_rank(ips[k]), ips[k], ifs),
        lan_rank(ips[k]) <= 3,
    ensures
        pick_tiers(ips, tier, ifs) matches Some(x) && lan_rank(x) <= lan_rank(ips[k]),
    decreases 7 - tier,
{
    lemma_pick_from_sound(ips, tier, ifs, 0);
    if tier == lan_rank(ips[k]) {
        lemma_pick_from_complete(ips, tier, ifs, 0, k);
    } else if pick_from(ips, tier, ifs, 0) is None {
        lemma_pick_tiers_rank(ips, tier + 1, ifs, k);
    }
}


proof fn lemma_pick_tiers_some(ips: Seq<Seq<char>>, tier: int, ifs: Seq<InterfaceView>, k: int)
    requires
        1 <= tier <= 6,
        0 <= k < ips.len(),
        is_usable_ip(ips[k]),
    ensures
        pick_tiers(ips, tier, ifs) is Some,
    decreases 7 - tier,
{
    if tier == 6 {
        lemma_pick_from_complete(ips, 6, ifs, 0, k);
    } else if pick_from(ips, tier, ifs, 0) is None {
        lemma_pick_tiers_some(ips, tier + 1, ifs, k);
    }
}

/// A manual choice that is among the addresses always wins. Otherwise an
/// address is chosen exactly when some address is usable, and the chosen
/// one is usable; when none is, the gateway address is empty.
pub proof fn preferred_ip_choice(ips: Seq<Seq<char>>, preferred: Seq<char>, ifs: Seq<InterfaceView>)
    ensures
        ({
            let manual = preferred != "auto"@ && preferred.len() > 0 && ips.contains(preferred);
            let r = preferred_ip(ips, preferred, ifs);
            let some_usable = exists|k: int| 0 <= k < ips.len() && #[trigger] is_usable_ip(ips[k]);
            &&& manual ==> r == preferred
            &&& !manual && some_usable ==> ips.contains(r) && is_usable_ip(r)
            &&& !manual && !some_usable ==> r.len() == 0
        }),
{
    lemma_pick_tiers_sound(ips, 1, ifs);
    if exists|k: int| 0 <= k < ips.len() && #[trigger] is_usable_ip(ips[k]) {
        let k = choose|k: int| 0 <= k < ips.len() && #[trigger] is_usable_ip(ips[k]);
        lemma_pick_tiers_some(ips, 1, ifs, k);
    } else if pick_tiers(ips, 1, ifs) is Some {
        let x = pick_tiers(ips, 1, ifs)->0;
        let j = choose|j: int| 0 <= j < ips.len() && ips[j] == x;
        assert(is_usable_ip(ips[j]));
    }
}

/// Without a manual choice that applies, the LAN ranges are preferred in
/// the order 10/8, 172.16/12, 192.168/16 among usable addresses that are
/// not on a known virtual adapter: when such an address is in 10/8 the
/// gateway is in 10/8; when one is in 172.16/12 the gateway is in 10/8 or
/// 172.16/12; when one is in 192.168/16 the gateway is in one of the three.
/// The gateway is then itself such an address.
pub proof fn gateway_follows_lan_range_order(
    ips: Seq<Seq<char>>,
    preferred: Seq<char>,
    ifs: Seq<InterfaceView>,
    k: int,
)
    requires
        !(preferred != "auto"@ && preferred.len() > 0 && ips.contains(preferred)),
        0 <= k < ips.len(),
        is_usable_ip(ips[k]),
        match iface_of(ips[k], ifs) {
            Some(j) => !ifs[j].is_virtual,
            None => true,
        },
    ensures
        ({
            let r = preferred_ip(ips, preferred, ifs);
            &&& starts_with(ips[k], "10."@) ==> starts_with(r, "10."@)
            &&& in_172_private(ips[k]) ==> starts_with(r, "10."@) || in_172_private(r)
            &&& starts_with(ips[k], "192.168."@) ==> starts_with(r, "10."@) || in_172_private(r)
                || starts_with(r, "192.168."@)
            &&& is_lan(ips[k]) ==> ips.contains(r) && is_usable_ip(r) && match iface_of(r, ifs) {
                Some(j) => !ifs[j].is_virtual,
                None => true,
            }
        }),
{
    if is_lan(ips[k]) {
        preferred_ip_prefers_lan(ips, preferred, ifs, k);
        preferred_ip_choice(ips, preferred, ifs);
        assert(ips.contains(ips[k]));
    }
}

proof fn lemma_pick_tiers_upto(ips: Seq<Seq<char>>, tier: int, ifs: Seq<InterfaceView>, k: int, t: int)
    requires
        1 <= tier <= t <= 6,
        0 <= k < ips.len(),
        is_usable_ip(ips[k]),
        preference(t, ips[k], ifs),
    ensures
        pick_tiers(ips, tier, ifs) matches Some(x) && exists|u: int|
            tier <= u <= t && #[trigger] preference(u, x, ifs),
    decreases t - tier,
{
    lemma_pick_from_sound(ips, tier, ifs, 0);
    if tier == t {
        lemma_pick_from_complete(ips, tier, ifs, 0, k);
        let x = pick_from(ips, tier, ifs, 0)->0;
        assert(preference(tier, x, ifs));
    } else if let Some(x) = pick_from(ips, tier, ifs, 0) {
        assert(preference(tier, x, ifs));
    } else {
        lemma_pick_tiers_upto(ips, tier + 1, ifs, k, t);
        let x = pick_tiers(ips, tier + 1, ifs)->0;
        let u = choose|u: int| tier + 1 <= u <= t && #[trigger] preference(u, x, ifs);
        assert(preference(u, x, ifs));
    }
}

/// Without a manual choice that applies: when some usable address is a LAN
/// address (10/8, 172.16/12, 192.168/16), the gateway is a LAN address;
/// when none is, but some usable address belongs to a known adapter that
/// is not virtual, the gateway belongs to such an adapter.
pub proof fn gateway_prefers_lan_then_physical(
    ips: Seq<Seq<char>>,
    preferred: Seq<char>,
    ifs: Seq<InterfaceView>,
    k: int,
)
    requires
        !(preferred != "auto"@ && preferred.len() > 0 && ips.contains(preferred)),
        0 <= k < ips.len(),
        is_usable_ip(ips[k]),
    ensures
        ({
            let r = preferred_ip(ips, preferred, ifs);
            &&& (starts_with(ips[k], "10."@) || in_172_private(ips[k]) || starts_with(
                ips[k],
                "192.168."@,
            )) ==> (starts_with(r, "10."@) || in_172_private(r) || starts_with(r, "192.168."@))
            &&& ((forall|j: int|
                #![trigger ips[j]]
                0 <= j < ips.len() && is_usable_ip(ips[j]) ==> !(starts_with(ips[j], "10."@)
                    || in_172_private(ips[j]) || starts_with(ips[j], "192.168."@)))
                && (iface_of(ips[k], ifs) matches Some(jk) && !ifs[jk].is_virtual)) ==> (iface_of(
                r,
                ifs,
            ) matches Some(j2) && !ifs[j2].is_virtual)
        }),
{
    lemma_pick_tiers_sound(ips, 1, ifs);
    if is_lan(ips[k]) {
        lemma_pick_tiers_upto(ips, 1, ifs, k, 4);
        let x = pick_tiers(ips, 1, ifs)->0;
        let u = choose|u: int| 1 <= u <= 4 && #[trigger] preference(u, x, ifs);
        assert(preference(u, x, ifs));
    }
    if (forall|j: int|
        #![trigger ips[j]]
        0 <= j < ips.len() && is_usable_ip(ips[j]) ==> !(starts_with(ips[j], "10."@)
            || in_172_private(ips[j]) || starts_with(ips[j], "192.168."@)))
        && (iface_of(ips[k], ifs) matches Some(jk) && !ifs[jk].is_virtual) {
        assert(preference(5, ips[k], ifs));
        lemma_pick_tiers_upto(ips, 1, ifs, k, 5);
        let x = pick_tiers(ips, 1, ifs)->0;
        let u = choose|u: int| 1 <= u <= 5 && #[trigger] preference(u, x, ifs);
        assert(preference(u, x, ifs));
        let jx = choose|jx: int| 0 <= jx < ips.len() && ips[jx] == x;
        assert(is_usable_ip(ips[jx]));
        assert(!is_lan(x));
    }
}

} // verus!
