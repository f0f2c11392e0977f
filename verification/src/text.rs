//! Character-level text handling shared by the parsers: trimming, splitting,
//! prefix and substring tests, replacement and decimal numbers, each stated
//! over `Seq<char>` with the meaning of the `str` method of the same name.
use vstd::prelude::*;

verus! {

// ---------------------------------------------------------------------------
// Views
// ---------------------------------------------------------------------------

/// The character sequences held by a vector of character vectors.
pub open spec fn dv(v: Seq<Vec<char>>) -> Seq<Seq<char>> {
    v.map_values(|x: Vec<char>| x@)
}

/// The character sequences held by a vector of strings.
pub open spec fn sv(v: Seq<String>) -> Seq<Seq<char>> {
    v.map_values(|x: String| x@)
}

// ---------------------------------------------------------------------------
// Conversions
// ---------------------------------------------------------------------------

/// The characters of a string slice, in order.
pub fn chars_of(s: &str) -> (r: Vec<char>)
    ensures
        r@ == s@,
{
    let mut r: Vec<char> = Vec::new();
    proof {
        broadcast use vstd::string::group_string_axioms;
    }
    for c in it: s.chars()
        invariant
            r@ == it.seq().take(it.index() as int),
            it.seq() == s@,
    {
        r.push(c);
    }
    r
}

/// `String::from_iter` over characters: the string made of `cs`, in order.
#[verifier::external_body]
pub(crate) fn string_from_chars(cs: &Vec<char>) -> (s: String)
    ensures
        s@ == cs@,
{
    String::from_iter(cs.iter())
}

/// The characters `s[lo..hi]`, copied.
pub fn sub_chars(s: &Vec<char>, lo: usize, hi: usize) -> (r: Vec<char>)
    requires
        lo <= hi <= s.len(),
    ensures
        r@ == s@.subrange(lo as int, hi as int),
{
    let mut r: Vec<char> = Vec::new();
    let mut i = lo;
    while i < hi
        invariant
            lo <= i <= hi,
            hi <= s.len(),
            r@ == s@.subrange(lo as int, i as int),
        decreases hi - i,
    {
        r.push(s[i]);
        i += 1;
    }
    r
}

/// `a` followed by `b`.
pub fn append_chars(a: &mut Vec<char>, b: &Vec<char>)
    ensures
        final(a)@ == old(a)@ + b@,
{
    let mut k: usize = 0;
    let ghost a0 = a@;
    while k < b.len()
        invariant
            k <= b.len(),
            a@ == a0 + b@.take(k as int),
        decreases b.len() - k,
    {
        a.push(b[k]);
        assert(b@.take(k + 1) =~= b@.take(k as int).push(b@[k as int]));
        k += 1;
    }
    assert(b@.take(b@.len() as int) =~= b@);
}

/// The string made of the literal `prefix` and then `rest`.
pub fn prefixed_string(prefix: &str, rest: &Vec<char>) -> (r: String)
    ensures
        r@ == prefix@ + rest@,
{
    let mut cs = chars_of(prefix);
    append_chars(&mut cs, rest);
    string_from_chars(&cs)
}

/// A string holding the text of a literal.
pub fn string_of(s: &str) -> (r: String)
    ensures
        r@ == s@,
{
    let cs = chars_of(s);
    string_from_chars(&cs)
}

/// The characters of a string.
pub fn chars_of_string(s: &String) -> (r: Vec<char>)
    ensures
        r@ == s@,
{
    chars_of(s.as_str())
}

/// A copy of the characters of `s`.
pub fn copy_chars(s: &Vec<char>) -> (r: Vec<char>)
    ensures
        r@ == s@,
{
    let r = sub_chars(s, 0, s.len());
    assert(s@.subrange(0, s@.len() as int) =~= s@);
    r
}

// ---------------------------------------------------------------------------
// Whitespace and trimming
// ---------------------------------------------------------------------------

/// `char::is_whitespace`: the characters with the Unicode White_Space property.
pub open spec fn is_ws(c: char) -> bool {
    ||| c == ' '
    ||| ('\t' <= c && c <= '\r')
    ||| c == '\u{85}'
    ||| c == '\u{A0}'
    ||| c == '\u{1680}'
    ||| ('\u{2000}' <= c && c <= '\u{200A}')
    ||| c == '\u{2028}'
    ||| c == '\u{2029}'
    ||| c == '\u{202F}'
    ||| c == '\u{205F}'
    ||| c == '\u{3000}'
}

pub fn is_whitespace(c: char) -> (r: bool)
    ensures
        r == is_ws(c),
{
    c == ' ' || ('\t' <= c && c <= '\r') || c == '\u{85}' || c == '\u{A0}' || c == '\u{1680}'
        || ('\u{2000}' <= c && c <= '\u{200A}') || c == '\u{2028}' || c == '\u{2029}' || c
        == '\u{202F}' || c == '\u{205F}' || c == '\u{3000}'
}

/// `str::trim_start`.
pub open spec fn trim_start_seq(s: Seq<char>) -> Seq<char>
    decreases s.len(),
{
    if s.len() > 0 && is_ws(s[0]) {
        trim_start_seq(s.drop_first())
    } else {
        s
    }
}

/// `str::trim_end`.
pub open spec fn trim_end_seq(s: Seq<char>) -> Seq<char>
    decreases s.len(),
{
    if s.len() > 0 && is_ws(s.last()) {
        trim_end_seq(s.drop_last())
    } else {
        s
    }
}

/// `str::trim`: leading and trailing whitespace removed.
pub open spec fn trim_seq(s: Seq<char>) -> Seq<char> {
    trim_end_seq(trim_start_seq(s))
}

pub fn trim(s: &Vec<char>) -> (r: Vec<char>)
    ensures
        r@ == trim_seq(s@),
{
    let n = s.len();
    let mut a: usize = 0;
    assert(s@.skip(0) =~= s@);
    while a < n && is_whitespace(s[a])
        invariant
            a <= n,
            n == s.len(),
            trim_start_seq(s@) == trim_start_seq(s@.skip(a as int)),
        decreases n - a,
    {
        assert(s@.skip(a as int).drop_first() =~= s@.skip(a + 1));
        a += 1;
    }
    assert(trim_start_seq(s@.skip(a as int)) == s@.skip(a as int));
    assert(s@.skip(a as int) =~= s@.subrange(a as int, n as int));
    let mut b: usize = n;
    while b > a && is_whitespace(s[b - 1])
        invariant
            a <= b <= n,
            n == s.len(),
            trim_start_seq(s@) == s@.subrange(a as int, n as int),
            trim_end_seq(s@.subrange(a as int, n as int)) == trim_end_seq(
                s@.subrange(a as int, b as int),
            ),
        decreases b - a,
    {
        assert(s@.subrange(a as int, b as int).drop_last() =~= s@.subrange(a as int, b - 1));
        b -= 1;
    }
    assert(trim_end_seq(s@.subrange(a as int, b as int)) == s@.subrange(a as int, b as int));
    sub_chars(s, a, b)
}

/// `str::trim_end_matches(c)` for a single character.
pub open spec fn strip_trailing(s: Seq<char>, c: char) -> Seq<char>
    decreases s.len(),
{
    if s.len() > 0 && s.last() == c {
        strip_trailing(s.drop_last(), c)
    } else {
        s
    }
}

/// `str::trim_start_matches(c)` for a single character.
pub open spec fn strip_leading(s: Seq<char>, c: char) -> Seq<char>
    decreases s.len(),
{
    if s.len() > 0 && s[0] == c {
        strip_leading(s.drop_first(), c)
    } else {
        s
    }
}

pub fn trim_end_char(s: &Vec<char>, c: char) -> (r: Vec<char>)
    ensures
        r@ == strip_trailing(s@, c),
{
    let mut b = s.len();
    assert(s@.subrange(0, b as int) =~= s@);
    while b > 0 && s[b - 1] == c
        invariant
            b <= s.len(),
            strip_trailing(s@, c) == strip_trailing(s@.subrange(0, b as int), c),
        decreases b,
    {
        assert(s@.subrange(0, b as int).drop_last() =~= s@.subrange(0, b - 1));
        b -= 1;
    }
    sub_chars(s, 0, b)
}

pub fn trim_start_char(s: &Vec<char>, c: char) -> (r: Vec<char>)
    ensures
        r@ == strip_leading(s@, c),
{
    let n = s.len();
    let mut a: usize = 0;
    assert(s@.skip(0) =~= s@);
    while a < n && s[a] == c
        invariant
            a <= n,
            n == s.len(),
            strip_leading(s@, c) == strip_leading(s@.skip(a as int), c),
        decreases n - a,
    {
        assert(s@.skip(a as int).drop_first() =~= s@.skip(a + 1));
        a += 1;
    }
    assert(s@.skip(a as int) =~= s@.subrange(a as int, n as int));
    sub_chars(s, a, n)
}

// ---------------------------------------------------------------------------
// Prefixes, suffixes and substrings
// ---------------------------------------------------------------------------

/// `p` occurs in `s` at position `i`.
pub open spec fn occurs_at(s: Seq<char>, p: Seq<char>, i: int) -> bool {
    0 <= i && i + p.len() <= s.len() && s.subrange(i, i + p.len()) == p
}

/// `str::starts_with`.
pub open spec fn starts_with(s: Seq<char>, p: Seq<char>) -> bool {
    occurs_at(s, p, 0)
}

/// `str::ends_with`.
pub open spec fn ends_with(s: Seq<char>, p: Seq<char>) -> bool {
    occurs_at(s, p, s.len() - p.len())
}

/// `str::contains`.
pub open spec fn contains_seq(s: Seq<char>, p: Seq<char>) -> bool {
    exists|i: int| #[trigger] occurs_at(s, p, i)
}

pub fn matches_at(s: &Vec<char>, p: &Vec<char>, i: usize) -> (r: bool)
    ensures
        r == occurs_at(s@, p@, i as int),
{
    if i > s.len() || p.len() > s.len() - i {
        return false;
    }
    let mut k: usize = 0;
    while k < p.len()
        invariant
            k <= p.len(),
            i + p.len() <= s.len(),
            forall|j: int| 0 <= j < k ==> s@[i + j] == p@[j],
        decreases p.len() - k,
    {
        if s[i + k] != p[k] {
            assert(s@.subrange(i as int, i + p.len())[k as int] != p@[k as int]);
            return false;
        }
        k += 1;
    }
    assert(s@.subrange(i as int, i + p.len()) =~= p@);
    true
}

pub fn has_prefix(s: &Vec<char>, p: &Vec<char>) -> (r: bool)
    ensures
        r == starts_with(s@, p@),
{
    matches_at(s, p, 0)
}

pub fn has_suffix(s: &Vec<char>, p: &Vec<char>) -> (r: bool)
    ensures
        r == ends_with(s@, p@),
{
    if p.len() > s.len() {
        return false;
    }
    matches_at(s, p, s.len() - p.len())
}

pub fn contains_chars(s: &Vec<char>, p: &Vec<char>) -> (r: bool)
    ensures
        r == contains_seq(s@, p@),
{
    if p.len() > s.len() {
        assert forall|i: int| !occurs_at(s@, p@, i) by {}
        return false;
    }
    if p.len() == 0 {
        assert(s@.subrange(0, 0) =~= p@);
        assert(occurs_at(s@, p@, 0));
        return true;
    }
    let last = s.len() - p.len();
    let mut i: usize = 0;
    while i <= last
        invariant
            last == s.len() - p.len(),
            p.len() <= s.len(),
            p.len() >= 1,
            i <= last + 1,
            forall|j: int| 0 <= j < i ==> !occurs_at(s@, p@, j),
        decreases last + 1 - i,
    {
        if matches_at(s, p, i) {
            return true;
        }
        i += 1;
    }
    assert forall|j: int| !occurs_at(s@, p@, j) by {
        if 0 <= j && j < i {
        }
    }
    false
}

/// Whether a string holds the text of a literal.
pub fn str_has_prefix(s: &Vec<char>, p: &str) -> (r: bool)
    ensures
        r == starts_with(s@, p@),
{
    let pc = chars_of(p);
    has_prefix(s, &pc)
}

pub fn str_has_suffix(s: &Vec<char>, p: &str) -> (r: bool)
    ensures
        r == ends_with(s@, p@),
{
    let pc = chars_of(p);
    has_suffix(s, &pc)
}

pub fn str_contains(s: &Vec<char>, p: &str) -> (r: bool)
    ensures
        r == contains_seq(s@, p@),
{
    let pc = chars_of(p);
    contains_chars(s, &pc)
}

pub fn chars_eq(a: &Vec<char>, b: &Vec<char>) -> (r: bool)
    ensures
        r == (a@ == b@),
{
    if a.len() != b.len() {
        return false;
    }
    let r = matches_at(a, b, 0);
    assert(r ==> a@.subrange(0, b@.len() as int) =~= a@);
    assert(a@ == b@ ==> a@.subrange(0, b@.len() as int) =~= b@);
    r
}

pub fn str_eq(a: &Vec<char>, b: &str) -> (r: bool)
    ensures
        r == (a@ == b@),
{
    let bc = chars_of(b);
    chars_eq(a, &bc)
}

// ---------------------------------------------------------------------------
// Splitting
// ---------------------------------------------------------------------------

/// `str::split(c)`: the pieces between occurrences of `c` (always at least one).
pub open spec fn split_char(s: Seq<char>, c: char) -> Seq<Seq<char>>
    decreases s.len(),
{
    if s.len() == 0 {
        seq![Seq::<char>::empty()]
    } else {
        let rest = split_char(s.drop_first(), c);
        if s[0] == c {
            seq![Seq::<char>::empty()] + rest
        } else {
            rest.update(0, seq![s[0]] + rest[0])
        }
    }
}

pub proof fn lemma_split_char_nonempty(s: Seq<char>, c: char)
    ensures
        split_char(s, c).len() >= 1,
    decreases s.len(),
{
    if s.len() > 0 {
        lemma_split_char_nonempty(s.drop_first(), c);
    }
}

/// Splitting text joined by the separator gives the pieces of each side.
pub proof fn lemma_split_char_join(s: Seq<char>, c: char, t: Seq<char>)
    ensures
        split_char(s + seq![c] + t, c) == split_char(s, c) + split_char(t, c),
    decreases s.len(),
{
    let u = s + seq![c] + t;
    if s.len() == 0 {
        assert(u =~= seq![c] + t);
        assert(u.drop_first() =~= t);
        assert(split_char(u, c) =~= split_char(s, c) + split_char(t, c));
    } else {
        assert(u.drop_first() =~= s.drop_first() + seq![c] + t);
        lemma_split_char_join(s.drop_first(), c, t);
        lemma_split_char_nonempty(s.drop_first(), c);
        let a = split_char(s.drop_first(), c);
        let b = split_char(t, c);
        if s[0] == c {
            assert(split_char(u, c) =~= split_char(s, c) + b);
        } else {
            assert((a + b).update(0, seq![s[0]] + (a + b)[0]) =~= a.update(0, seq![s[0]] + a[0])
                + b);
        }
    }
}

/// Leading `c`s are stripped from the front part only, when what follows
/// does not start with `c`.
pub proof fn lemma_strip_leading_concat(s: Seq<char>, t: Seq<char>, c: char)
    requires
        t.len() > 0,
        t[0] != c,
    ensures
        strip_leading(s + t, c) == strip_leading(s, c) + t,
    decreases s.len(),
{
    if s.len() == 0 {
        assert(s + t =~= t);
    } else if s[0] == c {
        assert((s + t).drop_first() =~= s.drop_first() + t);
        lemma_strip_leading_concat(s.drop_first(), t, c);
    }
}

pub fn split_on(s: &Vec<char>, c: char) -> (r: Vec<Vec<char>>)
    ensures
        dv(r@) == split_char(s@, c),
        r.len() >= 1,
{
    let mut r: Vec<Vec<char>> = Vec::new();
    r.push(Vec::new());
    let mut i = s.len();
    assert(dv(r@) =~= split_char(s@.skip(i as int), c));
    while i > 0
        invariant
            i <= s.len(),
            r.len() >= 1,
            dv(r@) == split_char(s@.skip(i as int), c),
        decreases i,
    {
        let x = s[i - 1];
        let ghost tail = s@.skip(i as int);
        assert(s@.skip(i - 1).drop_first() =~= tail);
        assert(s@.skip(i - 1)[0] == x);
        proof {
            lemma_split_char_nonempty(tail, c);
        }
        if x == c {
            r.insert(0, Vec::new());
            assert(dv(r@) =~= split_char(s@.skip(i - 1), c));
        } else {
            let ghost r0 = dv(r@);
            let mut w = r.remove(0);
            assert(w@ == r0[0]);
            w.insert(0, x);
            let ghost wv = w@;
            assert(wv =~= seq![x] + r0[0]);
            r.insert(0, w);
            assert(dv(r@) =~= r0.update(0, wv));
            assert(dv(r@) =~= split_char(s@.skip(i - 1), c));
        }
        i -= 1;
    }
    assert(s@.skip(0) =~= s@);
    r
}

/// `str::split_whitespace`: the maximal runs of non-whitespace characters.
pub open spec fn words(s: Seq<char>) -> Seq<Seq<char>>
    decreases s.len(),
{
    if s.len() == 0 {
        Seq::<Seq<char>>::empty()
    } else {
        let rest = words(s.drop_first());
        if is_ws(s[0]) {
            rest
        } else if s.len() > 1 && !is_ws(s[1]) {
            rest.update(0, seq![s[0]] + rest[0])
        } else {
            seq![seq![s[0]]] + rest
        }
    }
}

pub proof fn lemma_words_nonempty(s: Seq<char>)
    requires
        s.len() > 0,
        !is_ws(s[0]),
    ensures
        words(s).len() >= 1,
    decreases s.len(),
{
    if s.len() > 1 && !is_ws(s[1]) {
        lemma_words_nonempty(s.drop_first());
    }
}

pub fn split_whitespace(s: &Vec<char>) -> (r: Vec<Vec<char>>)
    ensures
        dv(r@) == words(s@),
{
    let mut r: Vec<Vec<char>> = Vec::new();
    let n = s.len();
    let mut i = n;
    assert(dv(r@) =~= words(s@.skip(i as int)));
    while i > 0
        invariant
            i <= n,
            n == s.len(),
            dv(r@) == words(s@.skip(i as int)),
        decreases i,
    {
        let x = s[i - 1];
        let ghost tail = s@.skip(i as int);
        assert(s@.skip(i - 1).drop_first() =~= tail);
        assert(s@.skip(i - 1)[0] == x);
        if is_whitespace(x) {
            assert(dv(r@) =~= words(s@.skip(i - 1)));
        } else if i < n && !is_whitespace(s[i]) {
            assert(tail[0] == s@[i as int]);
            proof {
                lemma_words_nonempty(tail);
            }
            let ghost r0 = dv(r@);
            let mut w = r.remove(0);
            assert(w@ == r0[0]);
            w.insert(0, x);
            let ghost wv = w@;
            assert(wv =~= seq![x] + r0[0]);
            r.insert(0, w);
            assert(dv(r@) =~= r0.update(0, wv));
            assert(dv(r@) =~= words(s@.skip(i - 1)));
        } else {
            let mut w: Vec<char> = Vec::new();
            w.push(x);
            r.insert(0, w);
            assert(dv(r@) =~= words(s@.skip(i - 1)));
        }
        i -= 1;
    }
    assert(s@.skip(0) =~= s@);
    r
}

/// One line of `str::lines`: the line terminator `\n` is gone already, and a
/// `\r` just before it is removed too.
pub open spec fn strip_cr(l: Seq<char>) -> Seq<char> {
    if l.len() > 0 && l.last() == '\r' {
        l.drop_last()
    } else {
        l
    }
}

/// `str::lines`: lines end at `\n` or `\r\n`; a final line terminator adds no
/// empty line, and a final line without a terminator keeps a bare `\r`.
pub open spec fn lines_seq(s: Seq<char>) -> Seq<Seq<char>> {
    let p = split_char(s, '\n');
    let head = p.drop_last().map_values(|l: Seq<char>| strip_cr(l));
    if p.last().len() > 0 {
        head.push(p.last())
    } else {
        head
    }
}

pub fn strip_cr_chars(l: Vec<char>) -> (r: Vec<char>)
    ensures
        r@ == strip_cr(l@),
{
    let mut l = l;
    if l.len() > 0 && l[l.len() - 1] == '\r' {
        l.pop();
    }
    l
}

pub fn lines_of(s: &Vec<char>) -> (r: Vec<Vec<char>>)
    ensures
        dv(r@) == lines_seq(s@),
{
    let pieces = split_on(s, '\n');
    let ghost p = split_char(s@, '\n');
    let m = pieces.len() - 1;
    let mut r: Vec<Vec<char>> = Vec::new();
    let mut i: usize = 0;
    while i < m
        invariant
            i <= m,
            m + 1 == pieces.len(),
            dv(pieces@) == p,
            dv(r@) =~= p.drop_last().take(i as int).map_values(|l: Seq<char>| strip_cr(l)),
        decreases m - i,
    {
        let l = copy_chars(&pieces[i]);
        assert(pieces@[i as int]@ == p[i as int]);
        let l2 = strip_cr_chars(l);
        let ghost r0 = dv(r@);
        let ghost l2v = l2@;
        r.push(l2);
        assert(dv(r@) =~= r0.push(l2v));
        assert(p.drop_last().take(i + 1) =~= p.drop_last().take(i as int).push(p[i as int]));
        assert(dv(r@) =~= p.drop_last().take(i + 1).map_values(|l: Seq<char>| strip_cr(l)));
        i += 1;
    }
    assert(p.drop_last().take(m as int) =~= p.drop_last());
    assert(pieces@[m as int]@ == p.last());
    if pieces[m].len() > 0 {
        let l = copy_chars(&pieces[m]);
        r.push(l);
        assert(dv(r@) =~= lines_seq(s@));
    }
    r
}

/// `s.split(c).last()`: what follows the last `c` (all of `s` without one).
pub open spec fn last_piece(s: Seq<char>, c: char) -> Seq<char> {
    split_char(s, c).last()
}

pub fn last_piece_of(s: &Vec<char>, c: char) -> (r: Vec<char>)
    ensures
        r@ == last_piece(s@, c),
{
    let pieces = split_on(s, c);
    let k = pieces.len() - 1;
    let r = copy_chars(&pieces[k]);
    assert(dv(pieces@)[k as int] == pieces@[k as int]@);
    r
}

// ---------------------------------------------------------------------------
// Replacement
// ---------------------------------------------------------------------------

/// `str::replace(p, r)` for a non-empty pattern: non-overlapping occurrences,
/// leftmost first.
pub open spec fn replace_seq(s: Seq<char>, p: Seq<char>, r: Seq<char>) -> Seq<char>
    decreases s.len(),
{
    if s.len() == 0 || p.len() == 0 {
        s
    } else if starts_with(s, p) {
        r + replace_seq(s.skip(p.len() as int), p, r)
    } else {
        seq![s[0]] + replace_seq(s.drop_first(), p, r)
    }
}

pub fn replace_chars(s: &Vec<char>, p: &Vec<char>, rep: &Vec<char>) -> (r: Vec<char>)
    ensures
        r@ == replace_seq(s@, p@, rep@),
{
    if p.len() == 0 {
        return copy_chars(s);
    }
    let n = s.len();
    let mut out: Vec<char> = Vec::new();
    let mut i: usize = 0;
    assert(s@.skip(0) =~= s@);
    while i < n
        invariant
            i <= n,
            n == s.len(),
            p.len() > 0,
            out@ + replace_seq(s@.skip(i as int), p@, rep@) == replace_seq(s@, p@, rep@),
        decreases n - i,
    {
        let ghost t = s@.skip(i as int);
        assert(t.len() > 0);
        if matches_at(s, p, i) {
            assert(t.subrange(0, p@.len() as int) =~= s@.subrange(i as int, i + p@.len()));
            assert(starts_with(t, p@));
            assert(t.skip(p@.len() as int) =~= s@.skip(i + p@.len()));
            let mut k: usize = 0;
            let ghost out0 = out@;
            while k < rep.len()
                invariant
                    k <= rep.len(),
                    out@ == out0 + rep@.take(k as int),
                decreases rep.len() - k,
            {
                out.push(rep[k]);
                assert(rep@.take(k + 1) =~= rep@.take(k as int).push(rep@[k as int]));
                k += 1;
            }
            assert(rep@.take(rep@.len() as int) =~= rep@);
            assert(out@ + replace_seq(s@.skip(i + p@.len()), p@, rep@) =~= out0
                + replace_seq(t, p@, rep@));
            i = i + p.len();
        } else {
            proof {
                if i + p@.len() <= n {
                    assert(t.subrange(0, p@.len() as int) =~= s@.subrange(i as int, i + p@.len()));
                }
            }
            assert(!starts_with(t, p@));
            assert(t.drop_first() =~= s@.skip(i + 1));
            let ghost out0 = out@;
            out.push(s[i]);
            assert(out@ + replace_seq(s@.skip(i + 1), p@, rep@) =~= out0 + replace_seq(
                t,
                p@,
                rep@,
            ));
            i = i + 1;
        }
    }
    assert(out@ + replace_seq(s@.skip(n as int), p@, rep@) =~= out@);
    out
}

pub fn replace_str(s: &Vec<char>, p: &str, rep: &str) -> (r: Vec<char>)
    ensures
        r@ == replace_seq(s@, p@, rep@),
{
    let pc = chars_of(p);
    let rc = chars_of(rep);
    replace_chars(s, &pc, &rc)
}

// ---------------------------------------------------------------------------
// Numbers
// ---------------------------------------------------------------------------

pub open spec fn is_digit(c: char) -> bool {
    '0' <= c && c <= '9'
}

pub open spec fn digit_val(c: char) -> int {
    c as int - '0' as int
}

/// The value of a string of decimal digits.
pub open spec fn digits_value(s: Seq<char>) -> int
    decreases s.len(),
{
    if s.len() == 0 {
        0
    } else {
        digits_value(s.drop_last()) * 10 + digit_val(s.last())
    }
}

pub open spec fn all_digits(s: Seq<char>) -> bool {
    forall|i: int| 0 <= i < s.len() ==> is_digit(#[trigger] s[i])
}

/// The digits of an unsigned number: one leading `+` is allowed.
pub open spec fn unsigned_digits(s: Seq<char>) -> Seq<char> {
    if s.len() > 0 && s[0] == '+' {
        s.drop_first()
    } else {
        s
    }
}

/// `str::parse` for an unsigned integer type whose largest value is `max`:
/// an optional `+`, then one or more decimal digits, of value at most `max`.
pub open spec fn parse_unsigned(s: Seq<char>, max: int) -> Option<int> {
    let d = unsigned_digits(s);
    if d.len() > 0 && all_digits(d) && digits_value(d) <= max {
        Some(digits_value(d))
    } else {
        None
    }
}

pub proof fn lemma_digits_value_nonneg(s: Seq<char>)
    requires
        all_digits(s),
    ensures
        digits_value(s) >= 0,
    decreases s.len(),
{
    if s.len() > 0 {
        assert(all_digits(s.drop_last()));
        lemma_digits_value_nonneg(s.drop_last());
        assert(is_digit(s[s.len() - 1]));
    }
}

pub proof fn lemma_digits_value_prefix(s: Seq<char>, i: int)
    requires
        all_digits(s),
        0 <= i <= s.len(),
    ensures
        digits_value(s.take(i)) <= digits_value(s),
    decreases s.len(),
{
    if i == s.len() {
        assert(s.take(i) =~= s);
    } else {
        assert(all_digits(s.drop_last()));
        lemma_digits_value_prefix(s.drop_last(), i);
        assert(s.drop_last().take(i) =~= s.take(i));
        lemma_digits_value_nonneg(s.drop_last());
        assert(is_digit(s[s.len() - 1]));
    }
}

pub fn parse_uint(s: &Vec<char>, max: u64) -> (r: Option<u64>)
    ensures
        r is Some <==> parse_unsigned(s@, max as int) is Some,
        r matches Some(v) ==> v == parse_unsigned(s@, max as int)->0,
{
    let n = s.len();
    let start: usize = if n > 0 && s[0] == '+' {
        1
    } else {
        0
    };
    let ghost d = unsigned_digits(s@);
    assert(d =~= s@.subrange(start as int, n as int));
    if start >= n {
        return None;
    }
    let mut acc: u64 = 0;
    let mut i = start;
    assert(d.take(0) =~= Seq::<char>::empty());
    while i < n
        invariant
            start <= i <= n,
            n == s.len(),
            d == s@.subrange(start as int, n as int),
            d == unsigned_digits(s@),
            acc as int == digits_value(d.take(i - start)),
            acc <= max,
            all_digits(d.take(i - start)),
        decreases n - i,
    {
        let c = s[i];
        if !(c >= '0' && c <= '9') {
            assert(d[i - start] == c);
            assert(!is_digit(d[i - start]));
            assert(!all_digits(d));
            return None;
        }
        let dg: u64 = (c as u32 - '0' as u32) as u64;
        assert(d.take(i - start + 1).drop_last() =~= d.take(i - start));
        assert(d.take(i - start + 1).last() == c);
        assert(dg as int == digit_val(c));
        if dg > max || acc > (max - dg) / 10 {
            proof {
                assert(acc * 10 + dg > max) by (nonlinear_arith)
                    requires
                        dg > max || acc > (max - dg) / 10,
                ;
                if all_digits(d) {
                    lemma_digits_value_prefix(d, i - start + 1);
                }
            }
            return None;
        }
        proof {
            assert(acc * 10 + dg <= max) by (nonlinear_arith)
                requires
                    acc <= (max - dg) / 10,
                    dg <= max,
            ;
        }
        acc = acc * 10 + dg;
        i += 1;
        assert(all_digits(d.take(i - start)));
    }
    assert(d.take(n - start) =~= d);
    Some(acc)
}

pub fn parse_u16(s: &Vec<char>) -> (r: Option<u16>)
    ensures
        r is Some <==> parse_unsigned(s@, 65535) is Some,
        r matches Some(v) ==> v == parse_unsigned(s@, 65535)->0,
{
    match parse_uint(s, 65535) {
        Some(v) => Some(v as u16),
        None => None,
    }
}

pub fn parse_u32(s: &Vec<char>) -> (r: Option<u32>)
    ensures
        r is Some <==> parse_unsigned(s@, 4294967295) is Some,
        r matches Some(v) ==> v == parse_unsigned(s@, 4294967295)->0,
{
    match parse_uint(s, 4294967295) {
        Some(v) => Some(v as u32),
        None => None,
    }
}

pub open spec fn digit_char(d: int) -> char {
    if d == 0 {
        '0'
    } else if d == 1 {
        '1'
    } else if d == 2 {
        '2'
    } else if d == 3 {
        '3'
    } else if d == 4 {
        '4'
    } else if d == 5 {
        '5'
    } else if d == 6 {
        '6'
    } else if d == 7 {
        '7'
    } else if d == 8 {
        '8'
    } else {
        '9'
    }
}

/// The decimal text of a natural number, as `Display` writes it.
pub open spec fn decimal(n: nat) -> Seq<char>
    decreases n,
{
    if n < 10 {
        seq![digit_char(n as int)]
    } else {
        decimal(n / 10).push(digit_char((n % 10) as int))
    }
}

/// The decimal text of a number is a non-empty run of digits whose value
/// is the number.
pub proof fn lemma_decimal_digits(n: nat)
    ensures
        decimal(n).len() > 0,
        all_digits(decimal(n)),
        digits_value(decimal(n)) == n,
        decimal(n)[0] != '+',
    decreases n,
{
    if n < 10 {
        assert(decimal(n).drop_last() =~= Seq::<char>::empty());
        assert(decimal(n).last() == digit_char(n as int));
        assert(digit_val(digit_char(n as int)) == n);
        assert(digits_value(Seq::<char>::empty()) == 0);
        assert(digits_value(decimal(n)) == digits_value(decimal(n).drop_last()) * 10 + digit_val(
            decimal(n).last(),
        ));
    } else {
        lemma_decimal_digits(n / 10);
        let d = decimal(n);
        assert(d.drop_last() =~= decimal(n / 10));
        assert(d.last() == digit_char((n % 10) as int));
        assert(digit_val(digit_char((n % 10) as int)) == n % 10);
        assert((n / 10) * 10 + n % 10 == n) by (nonlinear_arith);
        assert(digits_value(d) == digits_value(d.drop_last()) * 10 + digit_val(d.last()));
        assert forall|i: int| 0 <= i < d.len() implies is_digit(#[trigger] d[i]) by {
            if i < d.len() - 1 {
                assert(d[i] == decimal(n / 10)[i]);
            }
        }
        assert(d[0] == decimal(n / 10)[0]);
    }
}

/// Parsing the decimal text of a number gives the number back.
pub proof fn lemma_parse_decimal(n: nat, max: int)
    requires
        n <= max,
    ensures
        parse_unsigned(decimal(n), max) == Some(n as int),
{
    lemma_decimal_digits(n);
}

fn digit_to_char(d: u64) -> (c: char)
    requires
        d < 10,
    ensures
        c == digit_char(d as int),
{
    if d == 0 {
        '0'
    } else if d == 1 {
        '1'
    } else if d == 2 {
        '2'
    } else if d == 3 {
        '3'
    } else if d == 4 {
        '4'
    } else if d == 5 {
        '5'
    } else if d == 6 {
        '6'
    } else if d == 7 {
        '7'
    } else if d == 8 {
        '8'
    } else {
        '9'
    }
}

pub fn decimal_chars(n: u64) -> (r: Vec<char>)
    ensures
        r@ == decimal(n as nat),
{
    let mut r: Vec<char> = Vec::new();
    let mut m = n;
    while m >= 10
        invariant
            decimal(n as nat) == decimal(m as nat) + r@,
        decreases m,
    {
        let c = digit_to_char(m % 10);
        let ghost r0 = r@;
        r.insert(0, c);
        assert(decimal(m as nat) == decimal((m / 10) as nat).push(digit_char((m % 10) as int)));
        assert(decimal(m as nat) + r0 =~= decimal((m / 10) as nat) + r@);
        m = m / 10;
    }
    let c = digit_to_char(m);
    r.insert(0, c);
    assert(r@ =~= decimal(n as nat));
    r
}

} // verus!
