//! The `netsh interface portproxy` command lines and the parser of the
//! table that `netsh interface portproxy show all` prints.
use vstd::prelude::*;
use crate::model::{PortproxyEntry, PortproxyEntryView, entries_view};
use crate::text::{
    chars_of, contains_seq, decimal, decimal_chars, dv, lines_of, lines_seq, parse_u16,
    parse_unsigned, prefixed_string, split_whitespace, starts_with, str_contains, str_has_prefix,
    string_from_chars, string_of, sv, trim, trim_seq, words,
};

verus! {

/// A line of dashes or equal signs opens the table.
pub open spec fn is_table_rule(t: Seq<char>) -> bool {
    starts_with(t, "---"@) || starts_with(t, "==="@)
}

/// A line that repeats the column headings.
pub open spec fn is_heading(t: Seq<char>) -> bool {
    contains_seq(t, "Listen on"@) || contains_seq(t, "侦听"@)
}

/// The entry that a row of the table describes: listen address, listen
/// port, connect address, connect port; a row whose ports are not numbers
/// describes none.
pub open spec fn entry_of_words(w: Seq<Seq<char>>) -> Option<PortproxyEntryView> {
    if w.len() >= 4 {
        match (parse_unsigned(w[1], 65535), parse_unsigned(w[3], 65535)) {
            (Some(lp), Some(cp)) => Some(
                PortproxyEntryView {
                    listen_address: w[0],
                    listen_port: lp as u16,
                    connect_address: w[2],
                    connect_port: cp as u16,
                },
            ),
            _ => None,
        }
    } else {
        None
    }
}

/// The entries read from `lines[i..]`, `in_table` telling whether the table
/// has been opened before line `i`.
pub open spec fn show_all_from(lines: Seq<Seq<char>>, i: int, in_table: bool) -> Seq<
    PortproxyEntryView,
>
    decreases lines.len() - i,
{
    if i < 0 || i >= lines.len() {
        Seq::<PortproxyEntryView>::empty()
    } else {
        let t = trim_seq(lines[i]);
        if is_table_rule(t) {
            show_all_from(lines, i + 1, true)
        } else if !in_table || t.len() == 0 || is_heading(t) {
            show_all_from(lines, i + 1, in_table)
        } else {
            match entry_of_words(words(t)) {
                Some(e) => seq![e] + show_all_from(lines, i + 1, in_table),
                None => show_all_from(lines, i + 1, in_table),
            }
        }
    }
}

/// The entries listed in the output of `netsh interface portproxy show all`.
pub open spec fn show_all_entries(output: Seq<char>) -> Seq<PortproxyEntryView> {
    show_all_from(lines_seq(output), 0, false)
}

fn entry_of_row(w: &Vec<Vec<char>>) -> (r: Option<PortproxyEntry>)
    ensures
        match entry_of_words(dv(w@)) {
            Some(e) => r matches Some(x) && x@ == e,
            None => r is None,
        },
{
    if w.len() < 4 {
        return None;
    }
    assert(dv(w@)[1] == w@[1]@ && dv(w@)[3] == w@[3]@);
    assert(dv(w@)[0] == w@[0]@ && dv(w@)[2] == w@[2]@);
    let lp = match parse_u16(&w[1]) {
        Some(p) => p,
        None => return None,
    };
    let cp = match parse_u16(&w[3]) {
        Some(p) => p,
        None => return None,
    };
    Some(
        PortproxyEntry {
            listen_address: string_from_chars(&w[0]),
            listen_port: lp,
            connect_address: string_from_chars(&w[2]),
            connect_port: cp,
        },
    )
}

/// Reads the entries of the table printed by
/// `netsh interface portproxy show all`: rows count from the first line of
/// dashes or equal signs on; blank rows, heading rows and rows whose ports
/// are not numbers are skipped.
pub fn parse_show_all(output: &str) -> (r: Vec<PortproxyEntry>)
    ensures
        entries_view(r@) == show_all_entries(output@),
{
    let text = chars_of(output);
    let lines = lines_of(&text);
    let ghost ls = dv(lines@);
    let mut entries: Vec<PortproxyEntry> = Vec::new();
    let mut in_table = false;
    let mut i: usize = 0;
    while i < lines.len()
        invariant
            i <= lines.len(),
            ls == dv(lines@),
            ls == lines_seq(output@),
            entries_view(entries@) + show_all_from(ls, i as int, in_table) == show_all_entries(
                output@,
            ),
        decreases lines.len() - i,
    {
        let ghost before = entries_view(entries@);
        assert(ls[i as int] == lines@[i as int]@);
        let t = trim(&lines[i]);
        if str_has_prefix(&t, "---") || str_has_prefix(&t, "===") {
            in_table = true;
        } else if !in_table || t.len() == 0 || str_contains(&t, "Listen on") || str_contains(
            &t,
            "侦听",
        ) {
        } else {
            let w = split_whitespace(&t);
            match entry_of_row(&w) {
                Some(e) => {
                    let ghost ev = e@;
                    entries.push(e);
                    assert(entries_view(entries@) =~= before.push(ev));
                    assert(before.push(ev) + show_all_from(ls, i + 1, in_table) =~= before + (
                    seq![ev] + show_all_from(ls, i + 1, in_table)));
                },
                None => {},
            }
        }
        i += 1;
    }
    assert(entries_view(entries@) + show_all_from(ls, i as int, in_table) =~= entries_view(
        entries@,
    ));
    entries
}

/// The arguments of `netsh` that add a v4-to-v4 forwarding from every local
/// address on `listen_port` to `connect_address:connect_port`.
pub open spec fn add_args(listen_port: u16, connect_address: Seq<char>, connect_port: u16) -> Seq<
    Seq<char>,
> {
    seq![
        "interface"@,
        "portproxy"@,
        "add"@,
        "v4tov4"@,
        "listenport="@ + decimal(listen_port as nat),
        "listenaddress=0.0.0.0"@,
        "connectport="@ + decimal(connect_port as nat),
        "connectaddress="@ + connect_address,
    ]
}

/// The arguments of `netsh` that delete the v4-to-v4 forwarding listening on
/// `listen_address:listen_port`.
pub open spec fn delete_args(listen_port: u16, listen_address: Seq<char>) -> Seq<Seq<char>> {
    seq![
        "interface"@,
        "portproxy"@,
        "delete"@,
        "v4tov4"@,
        "listenport="@ + decimal(listen_port as nat),
        "listenaddress="@ + listen_address,
    ]
}

pub fn add_v4tov4_args(listen_port: u16, connect_address: &str, connect_port: u16) -> (r: Vec<
    String,
>)
    ensures
        sv(r@) == add_args(listen_port, connect_address@, connect_port),
{
    let mut r: Vec<String> = Vec::new();
    r.push(string_of("interface"));
    r.push(string_of("portproxy"));
    r.push(string_of("add"));
    r.push(string_of("v4tov4"));
    r.push(prefixed_string("listenport=", &decimal_chars(listen_port as u64)));
    r.push(string_of("listenaddress=0.0.0.0"));
    r.push(prefixed_string("connectport=", &decimal_chars(connect_port as u64)));
    r.push(prefixed_string("connectaddress=", &chars_of(connect_address)));
    assert(sv(r@) =~= add_args(listen_port, connect_address@, connect_port));
    r
}

pub fn delete_v4tov4_args(listen_port: u16, listen_address: &str) -> (r: Vec<String>)
    ensures
        sv(r@) == delete_args(listen_port, listen_address@),
{
    let mut r: Vec<String> = Vec::new();
    r.push(string_of("interface"));
    r.push(string_of("portproxy"));
    r.push(string_of("delete"));
    r.push(string_of("v4tov4"));
    r.push(prefixed_string("listenport=", &decimal_chars(listen_port as u64)));
    r.push(prefixed_string("listenaddress=", &chars_of(listen_address)));
    assert(sv(r@) =~= delete_args(listen_port, listen_address@));
    r
}

proof fn lemma_no_table_from(lines: Seq<Seq<char>>, i: int)
    requires
        0 <= i,
        forall|k: int| 0 <= k < lines.len() ==> !is_table_rule(#[trigger] trim_seq(lines[k])),
    ensures
        show_all_from(lines, i, false).len() == 0,
    decreases lines.len() - i,
{
    if i < lines.len() {
        assert(!is_table_rule(trim_seq(lines[i])));
        lemma_no_table_from(lines, i + 1);
    }
}

/// Rows count only inside the table: output with no line of dashes or
/// equal signs lists no entries.
pub proof fn no_table_no_entries(output: Seq<char>)
    requires
        forall|k: int|
            0 <= k < lines_seq(output).len() ==> !is_table_rule(
                #[trigger] trim_seq(lines_seq(output)[k]),
            ),
    ensures
        show_all_entries(output).len() == 0,
{
    lemma_no_table_from(lines_seq(output), 0);
}

/// Every port number of the table is read: a row of four or more words
/// whose second and fourth words are decimal numbers from 0 to 65535 (an
/// optional `+` allowed, as `str::parse` takes it) describes the entry from
/// its first word on the second word's port to its third word on the
/// fourth word's port.
pub proof fn rows_with_port_numbers_are_entries(w: Seq<Seq<char>>)
    requires
        w.len() >= 4,
        parse_unsigned(w[1], 65535) is Some,
        parse_unsigned(w[3], 65535) is Some,
    ensures
        entry_of_words(w) == Some(
            PortproxyEntryView {
                listen_address: w[0],
                listen_port: parse_unsigned(w[1], 65535)->0 as u16,
                connect_address: w[2],
                connect_port: parse_unsigned(w[3], 65535)->0 as u16,
            },
        ),
        0 <= parse_unsigned(w[1], 65535)->0 <= 65535,
        0 <= parse_unsigned(w[3], 65535)->0 <= 65535,
{
    crate::text::lemma_digits_value_nonneg(crate::text::unsigned_digits(w[1]));
    crate::text::lemma_digits_value_nonneg(crate::text::unsigned_digits(w[3]));
}

/// Inside the table, a non-blank row that is neither a line of dashes or
/// equal signs nor a heading, and whose words carry two port numbers from 0
/// to 65535, adds its entry to what the following rows give.
pub proof fn table_rows_with_port_numbers_are_listed(lines: Seq<Seq<char>>, i: int)
    requires
        0 <= i < lines.len(),
        trim_seq(lines[i]).len() > 0,
        !starts_with(trim_seq(lines[i]), "---"@),
        !starts_with(trim_seq(lines[i]), "==="@),
        !contains_seq(trim_seq(lines[i]), "Listen on"@),
        !contains_seq(trim_seq(lines[i]), "侦听"@),
        words(trim_seq(lines[i])).len() >= 4,
        parse_unsigned(words(trim_seq(lines[i]))[1], 65535) is Some,
        parse_unsigned(words(trim_seq(lines[i]))[3], 65535) is Some,
    ensures
        ({
            let w = words(trim_seq(lines[i]));
            show_all_from(lines, i, true) == seq![
                PortproxyEntryView {
                    listen_address: w[0],
                    listen_port: parse_unsigned(w[1], 65535)->0 as u16,
                    connect_address: w[2],
                    connect_port: parse_unsigned(w[3], 65535)->0 as u16,
                },
            ] + show_all_from(lines, i + 1, true)
        }),
{
    rows_with_port_numbers_are_entries(words(trim_seq(lines[i])));
}

/// How each line of the output counts: a line of dashes or equal signs
/// (after trimming) opens the table and lists nothing; before the table,
/// and inside it for blank lines and column headings ("Listen on", "侦听"),
/// a line lists nothing.
pub proof fn lines_that_list_nothing(lines: Seq<Seq<char>>, i: int, in_table: bool)
    requires
        0 <= i < lines.len(),
    ensures
        ({
            let t = trim_seq(lines[i]);
            let rule_line = starts_with(t, "---"@) || starts_with(t, "==="@);
            &&& rule_line ==> show_all_from(lines, i, in_table) == show_all_from(lines, i + 1, true)
            &&& !rule_line && (!in_table || t.len() == 0 || contains_seq(t, "Listen on"@)
                || contains_seq(t, "侦听"@)) ==> show_all_from(lines, i, in_table)
                == show_all_from(lines, i + 1, in_table)
        }),
{
}

/// Only such rows describe entries: a row with fewer than four words, or
/// whose second or fourth word is not a port number from 0 to 65535,
/// describes none.
pub proof fn only_rows_with_port_numbers_are_entries(w: Seq<Seq<char>>)
    ensures
        entry_of_words(w) is Some ==> w.len() >= 4 && parse_unsigned(w[1], 65535) is Some
            && parse_unsigned(w[3], 65535) is Some,
{
}

} // verus!
