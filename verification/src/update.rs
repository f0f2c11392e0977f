//! Self-update: the states of the update flow, version comparison, the
//! decision taken on a release description, and the updater script.
use vstd::prelude::*;
use crate::text::{
    chars_of, parse_u32, parse_unsigned, replace_seq, replace_str, split_char, split_on,
    string_from_chars, strip_leading, trim_start_char, dv, lemma_split_char_join,
    lemma_strip_leading_concat,
};

verus! {

/// The GitHub repository that releases are published in.
pub const GITHUB_REPO: &'static str = "uchihazzj/LanGateway";

/// The release asset that holds the program.
pub const ASSET_NAME: &'static str = "langateway.exe";

/// The process name the updater waits for.
pub const PROCESS_NAME: &'static str = "langateway";

/// State machine for the auto-update flow.
#[derive(Debug, Clone, PartialEq)]
pub enum UpdateStatus {
    Idle,
    Checking,
    UpToDate,
    Available { latest: String, release_url: String, download_url: String },
    Downloading,
    PreparingUpdate,
    Restarting,
    Failed(String),
}

impl UpdateStatus {
    /// Whether an update step is under way.
    pub fn is_busy(&self) -> (r: bool)
        ensures
            r == (self is Checking || self is Downloading || self is PreparingUpdate
                || self is Restarting),
    {
        match self {
            UpdateStatus::Checking
            | UpdateStatus::Downloading
            | UpdateStatus::PreparingUpdate
            | UpdateStatus::Restarting => true,
            _ => false,
        }
    }
}

// ---------------------------------------------------------------------------
// Versions
// ---------------------------------------------------------------------------

/// A dotted component read as a `u32`; 0 when it is not one.
pub open spec fn component_value(p: Seq<char>) -> int {
    match parse_unsigned(p, 4294967295) {
        Some(v) => v,
        None => 0,
    }
}

/// The numbers of a version: leading `v`s dropped, split at dots.
pub open spec fn version_parts(v: Seq<char>) -> Seq<int> {
    split_char(strip_leading(v, 'v'), '.').map_values(|p: Seq<char>| component_value(p))
}

/// Component `i` of a version, missing components counting as 0.
pub open spec fn part(a: Seq<int>, i: int) -> int {
    if 0 <= i < a.len() {
        a[i]
    } else {
        0
    }
}

/// `b` is greater than `a` at the first of the components `i..n` where
/// they differ.
pub open spec fn newer_from(a: Seq<int>, b: Seq<int>, i: int, n: int) -> bool
    decreases n - i,
{
    if i >= n {
        false
    } else if part(b, i) > part(a, i) {
        true
    } else if part(b, i) < part(a, i) {
        false
    } else {
        newer_from(a, b, i + 1, n)
    }
}

pub open spec fn max_len(a: Seq<int>, b: Seq<int>) -> int {
    if a.len() >= b.len() {
        a.len() as int
    } else {
        b.len() as int
    }
}

/// Version numbers `b` come after `a`, comparing component by component
/// with missing components counting as 0.
pub open spec fn parts_newer(a: Seq<int>, b: Seq<int>) -> bool {
    newer_from(a, b, 0, max_len(a, b))
}

/// The remote version is newer than the local one.
pub open spec fn version_newer(local: Seq<char>, remote: Seq<char>) -> bool {
    parts_newer(version_parts(local), version_parts(remote))
}

/// The two versions agree on every component, missing ones counting as 0.
pub open spec fn same_version(a: Seq<int>, b: Seq<int>) -> bool {
    forall|i: int| 0 <= i ==> #[trigger] part(a, i) == part(b, i)
}

fn version_numbers(v: &str) -> (r: Vec<u32>)
    ensures
        r@.map_values(|x: u32| x as int) == version_parts(v@),
{
    let c = chars_of(v);
    let stripped = trim_start_char(&c, 'v');
    let pieces = split_on(&stripped, '.');
    let ghost ps = dv(pieces@);
    let mut r: Vec<u32> = Vec::new();
    let mut k: usize = 0;
    while k < pieces.len()
        invariant
            k <= pieces.len(),
            ps == dv(pieces@),
            ps == split_char(strip_leading(v@, 'v'), '.'),
            r@.map_values(|x: u32| x as int) == ps.take(k as int).map_values(
                |p: Seq<char>| component_value(p),
            ),
        decreases pieces.len() - k,
    {
        assert(ps[k as int] == pieces@[k as int]@);
        let x = match parse_u32(&pieces[k]) {
            Some(x) => x,
            None => 0,
        };
        assert(x as int == component_value(ps[k as int]));
        let ghost before = r@;
        r.push(x);
        assert(r@ =~= before.push(x));
        assert(r@.map_values(|x: u32| x as int) =~= before.map_values(|x: u32| x as int).push(
            x as int,
        ));
        assert(ps.take(k + 1) =~= ps.take(k as int).push(ps[k as int]));
        assert(ps.take(k + 1).map_values(|p: Seq<char>| component_value(p)) =~= ps.take(
            k as int,
        ).map_values(|p: Seq<char>| component_value(p)).push(component_value(ps[k as int])));
        assert(r@.map_values(|x: u32| x as int) =~= ps.take(k + 1).map_values(
            |p: Seq<char>| component_value(p),
        ));
        k += 1;
    }
    assert(ps.take(pieces.len() as int) =~= ps);
    r
}

/// Whether the version `remote` (a release tag such as `v0.3.0`) is newer
/// than `local`. Leading `v`s are ignored, components are compared as
/// numbers, and a component that is not a number counts as 0.
pub fn is_newer(local: &str, remote: &str) -> (r: bool)
    ensures
        r == version_newer(local@, remote@),
{
    let a = version_numbers(local);
    let b = version_numbers(remote);
    let ghost av = a@.map_values(|x: u32| x as int);
    let ghost bv = b@.map_values(|x: u32| x as int);
    let n = if a.len() >= b.len() {
        a.len()
    } else {
        b.len()
    };
    assert(n == max_len(av, bv));
    let mut i: usize = 0;
    while i < n
        invariant
            i <= n,
            n == max_len(av, bv),
            av == a@.map_values(|x: u32| x as int),
            bv == b@.map_values(|x: u32| x as int),
            av == version_parts(local@),
            bv == version_parts(remote@),
            newer_from(av, bv, 0, n as int) == newer_from(av, bv, i as int, n as int),
        decreases n - i,
    {
        let x: u32 = if i < a.len() {
            a[i]
        } else {
            0
        };
        let y: u32 = if i < b.len() {
            b[i]
        } else {
            0
        };
        assert(part(av, i as int) == x);
        assert(part(bv, i as int) == y);
        if y > x {
            return true;
        }
        if y < x {
            return false;
        }
        i += 1;
    }
    false
}

// ---------------------------------------------------------------------------
// Laws of version comparison
// ---------------------------------------------------------------------------

proof fn lemma_newer_tail(a: Seq<int>, b: Seq<int>, i: int, n: int)
    requires
        i >= max_len(a, b),
    ensures
        !newer_from(a, b, i, n),
    decreases n - i,
{
    if i < n {
        lemma_newer_tail(a, b, i + 1, n);
    }
}

proof fn lemma_newer_bound(a: Seq<int>, b: Seq<int>, i: int, n: int, m: int)
    requires
        0 <= i,
        n >= max_len(a, b),
        m >= max_len(a, b),
    ensures
        newer_from(a, b, i, n) == newer_from(a, b, i, m),
    decreases max_len(a, b) - i,
{
    if i >= max_len(a, b) {
        lemma_newer_tail(a, b, i, n);
        lemma_newer_tail(a, b, i, m);
    } else {
        lemma_newer_bound(a, b, i + 1, n, m);
    }
}

proof fn lemma_newer_irreflexive(a: Seq<int>, i: int, n: int)
    ensures
        !newer_from(a, a, i, n),
    decreases n - i,
{
    if i < n {
        lemma_newer_irreflexive(a, i + 1, n);
    }
}

proof fn lemma_newer_asymmetric(a: Seq<int>, b: Seq<int>, i: int, n: int)
    requires
        newer_from(a, b, i, n),
    ensures
        !newer_from(b, a, i, n),
    decreases n - i,
{
    if i < n && part(b, i) == part(a, i) {
        lemma_newer_asymmetric(a, b, i + 1, n);
    }
}

proof fn lemma_newer_transitive(a: Seq<int>, b: Seq<int>, c: Seq<int>, i: int, n: int)
    requires
        newer_from(a, b, i, n),
        newer_from(b, c, i, n),
    ensures
        newer_from(a, c, i, n),
    decreases n - i,
{
    if i < n && part(b, i) == part(a, i) && part(c, i) == part(b, i) {
        lemma_newer_transitive(a, b, c, i + 1, n);
    }
}

proof fn lemma_newer_trichotomy(a: Seq<int>, b: Seq<int>, i: int, n: int)
    requires
        0 <= i,
        n >= max_len(a, b),
        !newer_from(a, b, i, n),
        !newer_from(b, a, i, n),
    ensures
        forall|k: int| i <= k ==> #[trigger] part(a, k) == part(b, k),
    decreases n - i,
{
    if i < n {
        lemma_newer_trichotomy(a, b, i + 1, n);
    }
}

/// No version is newer than itself.
pub proof fn version_newer_irreflexive(v: Seq<char>)
    ensures
        !version_newer(v, v),
{
    lemma_newer_irreflexive(version_parts(v), 0, max_len(version_parts(v), version_parts(v)));
}

/// When `b` is newer than `a`, `a` is not newer than `b`.
pub proof fn version_newer_asymmetric(a: Seq<char>, b: Seq<char>)
    requires
        version_newer(a, b),
    ensures
        !version_newer(b, a),
{
    let (x, y) = (version_parts(a), version_parts(b));
    assert(max_len(x, y) == max_len(y, x));
    lemma_newer_asymmetric(x, y, 0, max_len(x, y));
}

/// Newer-than is transitive: updates never go round in a circle.
pub proof fn version_newer_transitive(a: Seq<char>, b: Seq<char>, c: Seq<char>)
    requires
        version_newer(a, b),
        version_newer(b, c),
    ensures
        version_newer(a, c),
{
    let (x, y, z) = (version_parts(a), version_parts(b), version_parts(c));
    let n = if max_len(x, y) >= z.len() {
        max_len(x, y)
    } else {
        z.len() as int
    };
    lemma_newer_bound(x, y, 0, max_len(x, y), n);
    lemma_newer_bound(y, z, 0, max_len(y, z), n);
    lemma_newer_bound(x, z, 0, max_len(x, z), n);
    lemma_newer_transitive(x, y, z, 0, n);
}

/// Of two versions, either one is newer than the other, or they agree on
/// every component once missing components count as 0 (so `1.0` and
/// `v1.0.0` are the same release).
pub proof fn version_order_total(a: Seq<char>, b: Seq<char>)
    ensures
        version_newer(a, b) || version_newer(b, a) || same_version(
            version_parts(a),
            version_parts(b),
        ),
        same_version(version_parts(a), version_parts(b)) ==> !version_newer(a, b),
{
    let (x, y) = (version_parts(a), version_parts(b));
    assert(max_len(x, y) == max_len(y, x));
    if !version_newer(a, b) && !version_newer(b, a) {
        lemma_newer_trichotomy(x, y, 0, max_len(x, y));
    }
    if same_version(x, y) {
        lemma_same_not_newer(x, y, 0, max_len(x, y));
    }
}

proof fn lemma_newer_same_parts(a: Seq<int>, a2: Seq<int>, b: Seq<int>, b2: Seq<int>, i: int, n: int)
    requires
        same_version(a, a2),
        same_version(b, b2),
        0 <= i,
    ensures
        newer_from(a, b, i, n) == newer_from(a2, b2, i, n),
    decreases n - i,
{
    if i < n {
        assert(part(a, i) == part(a2, i) && part(b, i) == part(b2, i));
        lemma_newer_same_parts(a, a2, b, b2, i + 1, n);
    }
}

/// Versions that agree component by component compare alike.
proof fn lemma_parts_newer_same(a: Seq<int>, a2: Seq<int>, b: Seq<int>, b2: Seq<int>)
    requires
        same_version(a, a2),
        same_version(b, b2),
    ensures
        parts_newer(a, b) == parts_newer(a2, b2),
{
    let n = max_len(a, b) + max_len(a2, b2);
    lemma_newer_bound(a, b, 0, max_len(a, b), n);
    lemma_newer_bound(a2, b2, 0, max_len(a2, b2), n);
    lemma_newer_same_parts(a, a2, b, b2, 0, n);
}

proof fn lemma_parts_with_v(v: Seq<char>)
    ensures
        version_parts("v"@ + v) == version_parts(v),
{
    reveal_strlit("v");
    assert(("v"@ + v)[0] == 'v');
    assert(("v"@ + v).drop_first() =~= v);
}

proof fn lemma_parts_with_zero(v: Seq<char>)
    ensures
        same_version(version_parts(v + ".0"@), version_parts(v)),
{
    reveal_strlit(".0");
    let s = strip_leading(v, 'v');
    lemma_strip_leading_concat(v, ".0"@, 'v');
    assert(s + ".0"@ =~= s + seq!['.'] + seq!['0']);
    lemma_split_char_join(s, '.', seq!['0']);
    assert(seq!['0'].drop_first() =~= Seq::<char>::empty());
    assert(split_char(Seq::<char>::empty(), '.') =~= seq![Seq::<char>::empty()]);
    assert(seq!['0'] + Seq::<char>::empty() =~= seq!['0']);
    assert(split_char(seq!['0'], '.') =~= seq![seq!['0']]);
    let x = split_char(s, '.');
    let cv = |p: Seq<char>| component_value(p);
    assert((x + seq![seq!['0']]).map_values(cv) =~= x.map_values(cv).push(component_value(seq!['0'])));
    assert(seq!['0'].drop_last() =~= Seq::<char>::empty());
    assert(seq!['0'].last() == '0');
    assert(crate::text::digits_value(Seq::<char>::empty()) == 0);
    assert(crate::text::digits_value(seq!['0']) == 0);
    assert(crate::text::all_digits(seq!['0']));
    assert(crate::text::unsigned_digits(seq!['0']) == seq!['0']);
    assert(component_value(seq!['0']) == 0);
    let p = version_parts(v);
    assert(version_parts(v + ".0"@) =~= p.push(0));
    assert forall|i: int| 0 <= i implies #[trigger] part(p.push(0), i) == part(p, i) by {
        if i < p.len() {
            assert(p.push(0)[i] == p[i]);
        }
    }
}

/// The newer-version check ignores a leading `v` and a trailing `.0` on
/// either version: `v0.3.0`, `0.3.0` and `0.3` are the same release.
pub proof fn version_newer_ignores_prefix_and_trailing_zero(a: Seq<char>, b: Seq<char>)
    ensures
        version_newer("v"@ + a, b) == version_newer(a, b),
        version_newer(a, "v"@ + b) == version_newer(a, b),
        version_newer(a + ".0"@, b) == version_newer(a, b),
        version_newer(a, b + ".0"@) == version_newer(a, b),
{
    lemma_parts_with_v(a);
    lemma_parts_with_v(b);
    lemma_parts_with_zero(a);
    lemma_parts_with_zero(b);
    let (x, y) = (version_parts(a), version_parts(b));
    assert(same_version(x, x));
    assert(same_version(y, y));
    lemma_parts_newer_same(version_parts(a + ".0"@), x, y, y);
    lemma_parts_newer_same(x, x, version_parts(b + ".0"@), y);
}

proof fn lemma_same_not_newer(a: Seq<int>, b: Seq<int>, i: int, n: int)
    requires
        same_version(a, b),
        0 <= i,
    ensures
        !newer_from(a, b, i, n),
    decreases n - i,
{
    if i < n {
        assert(part(a, i) == part(b, i));
        lemma_same_not_newer(a, b, i + 1, n);
    }
}

// ---------------------------------------------------------------------------
// Releases
// ---------------------------------------------------------------------------

/// An asset of a GitHub release.
#[derive(Debug, Clone)]
pub struct GitHubAsset {
    pub name: String,
    pub browser_download_url: String,
}

/// The latest GitHub release, as the releases API describes it.
#[derive(Debug, Clone)]
pub struct GitHubRelease {
    pub tag_name: String,
    pub html_url: String,
    pub assets: Vec<GitHubAsset>,
}

/// The position of the first asset at or after `j` that holds the program.
pub open spec fn program_asset_from(assets: Seq<GitHubAsset>, j: int) -> Option<int>
    decreases assets.len() - j,
{
    if j < 0 || j >= assets.len() {
        None
    } else if assets[j].name@ == ASSET_NAME@ {
        Some(j)
    } else {
        program_asset_from(assets, j + 1)
    }
}

/// The message when a newer release has no program asset.
pub open spec fn missing_asset_message() -> Seq<char> {
    "No '"@ + ASSET_NAME@ + "' asset found in release"@
}

/// What an update check concludes from the latest release: nothing to do
/// when its tag is not newer than `local_version`; otherwise the tag, the
/// release page and the download address of the program asset, or an
/// error when the release has no such asset.
pub fn check_release(local_version: &str, release: &GitHubRelease) -> (r: Result<
    Option<(String, String, String)>,
    String,
>)
    ensures
        !version_newer(local_version@, release.tag_name@) ==> r == Ok::<
            Option<(String, String, String)>,
            String,
        >(None),
        version_newer(local_version@, release.tag_name@) ==> match program_asset_from(
            release.assets@,
            0,
        ) {
            Some(j) => r matches Ok(Some((t, h, u))) && t@ == release.tag_name@ && h@
                == release.html_url@ && u@ == release.assets@[j].browser_download_url@,
            None => r matches Err(e) && e@ == missing_asset_message(),
        },
{
    if !is_newer(local_version, release.tag_name.as_str()) {
        return Ok(None);
    }
    let mut j: usize = 0;
    while j < release.assets.len()
        invariant
            j <= release.assets.len(),
            version_newer(local_version@, release.tag_name@),
            program_asset_from(release.assets@, 0) == program_asset_from(
                release.assets@,
                j as int,
            ),
        decreases release.assets.len() - j,
    {
        let name = chars_of(release.assets[j].name.as_str());
        if crate::text::str_eq(&name, ASSET_NAME) {
            return Ok(
                Some(
                    (
                        release.tag_name.clone(),
                        release.html_url.clone(),
                        release.assets[j].browser_download_url.clone(),
                    ),
                ),
            );
        }
        j += 1;
    }
    let mut msg = chars_of("No '");
    crate::text::append_chars(&mut msg, &chars_of(ASSET_NAME));
    crate::text::append_chars(&mut msg, &chars_of("' asset found in release"));
    Err(string_from_chars(&msg))
}

// ---------------------------------------------------------------------------
// Updater script
// ---------------------------------------------------------------------------

/// The PowerShell script that swaps in the downloaded program once the
/// running one has exited; `PROCESS_NAME` stands for the process to wait for.
pub const UPDATER_TEMPLATE: &'static str = r#"param(
    [string]$OldExe,
    [string]$NewExe,
    [string]$BakExe
)

$ErrorActionPreference = "Stop"

Start-Sleep -Seconds 2
$timeout = 30
while ($timeout -gt 0) {
    $proc = Get-Process -Name "PROCESS_NAME" -ErrorAction SilentlyContinue
    if (-not $proc) { break }
    Start-Sleep -Seconds 1
    $timeout--
}

try {
    if (Test-Path -LiteralPath $OldExe) {
        Move-Item -LiteralPath $OldExe -Destination $BakExe -Force -ErrorAction Stop
    }
    Move-Item -LiteralPath $NewExe -Destination $OldExe -Force -ErrorAction Stop
    Start-Process -FilePath $OldExe
    Start-Sleep -Seconds 3
    if (Test-Path -LiteralPath $BakExe) {
        Remove-Item -LiteralPath $BakExe -Force
    }
} catch {
    if ((Test-Path -LiteralPath $BakExe) -and (-not (Test-Path -LiteralPath $OldExe))) {
        Move-Item -LiteralPath $BakExe -Destination $OldExe -Force -ErrorAction SilentlyContinue
    }
}

Remove-Item -LiteralPath $MyInvocation.MyCommand.Path -Force -ErrorAction SilentlyContinue
"#;

/// The updater script, waiting for the process named `PROCESS_NAME`.
pub fn updater_script() -> (r: String)
    ensures
        r@ == replace_seq(UPDATER_TEMPLATE@, "PROCESS_NAME"@, PROCESS_NAME@),
{
    let t = chars_of(UPDATER_TEMPLATE);
    let s = replace_str(&t, "PROCESS_NAME", PROCESS_NAME);
    string_from_chars(&s)
}

// ---------------------------------------------------------------------------
// Swapping in a new version
// ---------------------------------------------------------------------------

/// The files an update works with, named in the program's directory: the
/// running program, the downloaded one, the backup of the running one, and
/// the download before it is complete.
#[derive(Debug, Clone)]
pub struct UpdateFiles {
    pub old_exe: String,
    pub new_exe: String,
    pub bak_exe: String,
    pub download_tmp: String,
}

/// The names of the files of an update to `latest_version`.
pub fn update_files(latest_version: &str) -> (r: UpdateFiles)
    ensures
        r.old_exe@ == ASSET_NAME@,
        r.new_exe@ == "langateway-v"@ + latest_version@ + ".exe"@,
        r.bak_exe@ == ASSET_NAME@ + ".bak"@,
        r.download_tmp@ == "langateway-v"@ + latest_version@ + ".exe.download"@,
{
    let mut new_exe = chars_of("langateway-v");
    crate::text::append_chars(&mut new_exe, &chars_of(latest_version));
    let mut download_tmp = chars_of("langateway-v");
    crate::text::append_chars(&mut download_tmp, &chars_of(latest_version));
    crate::text::append_chars(&mut new_exe, &chars_of(".exe"));
    crate::text::append_chars(&mut download_tmp, &chars_of(".exe.download"));
    let mut bak = chars_of(ASSET_NAME);
    crate::text::append_chars(&mut bak, &chars_of(".bak"));
    UpdateFiles {
        old_exe: string_from_chars(&chars_of(ASSET_NAME)),
        new_exe: string_from_chars(&new_exe),
        bak_exe: string_from_chars(&bak),
        download_tmp: string_from_chars(&download_tmp),
    }
}

/// The arguments of `powershell.exe` that run the updater script on the
/// three programs.
pub open spec fn updater_args_text(script: Seq<char>, old_exe: Seq<char>, new_exe: Seq<char>, bak_exe: Seq<char>) -> Seq<Seq<char>> {
    seq![
        "-NoProfile"@,
        "-ExecutionPolicy"@,
        "Bypass"@,
        "-File"@,
        script,
        "-OldExe"@,
        old_exe,
        "-NewExe"@,
        new_exe,
        "-BakExe"@,
        bak_exe,
    ]
}

pub fn updater_args(script: &str, old_exe: &str, new_exe: &str, bak_exe: &str) -> (r: Vec<String>)
    ensures
        r@.map_values(|s: String| s@) == updater_args_text(script@, old_exe@, new_exe@, bak_exe@),
{
    let mut r: Vec<String> = Vec::new();
    r.push(string_from_chars(&chars_of("-NoProfile")));
    r.push(string_from_chars(&chars_of("-ExecutionPolicy")));
    r.push(string_from_chars(&chars_of("Bypass")));
    r.push(string_from_chars(&chars_of("-File")));
    r.push(string_from_chars(&chars_of(script)));
    r.push(string_from_chars(&chars_of("-OldExe")));
    r.push(string_from_chars(&chars_of(old_exe)));
    r.push(string_from_chars(&chars_of("-NewExe")));
    r.push(string_from_chars(&chars_of(new_exe)));
    r.push(string_from_chars(&chars_of("-BakExe")));
    r.push(string_from_chars(&chars_of(bak_exe)));
    assert(r@.map_values(|s: String| s@) =~= updater_args_text(script@, old_exe@, new_exe@, bak_exe@));
    r
}

} // verus!
