use vstd::prelude::*;

use crate::text::{
    append_chars, chars_of, chars_to_string, has_prefix, replace_all, replace_chars, same_chars, second_piece,
    split_second, starts_with,
    strip_both, strip_chars, trim_str, trimmed,
};

verus! {

/// A semantic version: three numbers, a pre-release tag and build metadata.
pub struct SemVer {
    pub major: u64,
    pub minor: u64,
    pub patch: u64,
    pub pre: String,
    pub build: String,
}

/// The parts of a version as plain values.
pub open spec fn parts(v: SemVer) -> (u64, u64, u64, Seq<char>, Seq<char>) {
    (v.major, v.minor, v.patch, v.pre@, v.build@)
}

/// What semver::Version::parse makes of a text: its parts, or `None`
/// where the text is no semantic version.
pub uninterp spec fn semver_parse(s: Seq<char>) -> Option<(u64, u64, u64, Seq<char>, Seq<char>)>;

/// semver::Error, the reason a text is no semantic version.
#[verifier::external_type_specification]
#[verifier::external_body]
pub struct ExSemverError(semver::Error);

/// Relies on semver::Version::parse: the parts of the version that `s`
/// writes; what it accepts depends on the text alone.
#[verifier::external_body]
fn parse_semver(s: &str) -> (r: Result<SemVer, semver::Error>)
    ensures
        match r {
            Ok(v) => semver_parse(s@) == Some(parts(v)),
            Err(_) => semver_parse(s@) is None,
        },
{
    semver::Version::parse(s).map(|v| SemVer {
        major: v.major,
        minor: v.minor,
        patch: v.patch,
        pre: v.pre.as_str().to_string(),
        build: v.build.as_str().to_string(),
    })
}

pub open spec fn digit(d: int) -> char {
    seq!['0', '1', '2', '3', '4', '5', '6', '7', '8', '9'][d]
}

/// The decimal digits of `n`.
pub open spec fn decimal(n: nat) -> Seq<char>
    decreases n,
{
    if n < 10 {
        seq![digit(n as int)]
    } else {
        decimal(n / 10).push(digit((n % 10) as int))
    }
}

fn digit_char(d: u64) -> (r: char)
    requires
        d < 10,
    ensures
        r == digit(d as int),
{
    match d {
        0 => '0',
        1 => '1',
        2 => '2',
        3 => '3',
        4 => '4',
        5 => '5',
        6 => '6',
        7 => '7',
        8 => '8',
        _ => '9',
    }
}

/// The decimal digits of `n`, as u64's Display writes them.
fn u64_text(n: u64) -> (r: String)
    ensures
        r@ == decimal(n as nat),
{
    let mut acc: Vec<char> = Vec::new();
    let mut m: u64 = n;
    while m >= 10
        invariant
            decimal(n as nat) == decimal(m as nat) + acc@,
        decreases m,
    {
        let d = digit_char(m % 10);
        proof {
            assert(decimal(m as nat) == decimal((m / 10) as nat).push(digit((m % 10) as int)));
            assert(decimal((m / 10) as nat).push(digit((m % 10) as int)) + acc@ =~= decimal((m / 10) as nat) + acc@.insert(0, d));
        }
        acc.insert(0, d);
        m = m / 10;
    }
    acc.insert(0, digit_char(m));
    proof {
        assert(decimal(m as nat) == seq![digit(m as int)]);
        assert(acc@ =~= decimal(m as nat) + acc@.drop_first());
    }
    chars_to_string(&acc)
}

/// A version as semver::Version writes it: `major.minor.patch`, then
/// `-pre` and `+build` where those are not empty.
pub open spec fn version_text(v: (u64, u64, u64, Seq<char>, Seq<char>)) -> Seq<char> {
    decimal(v.0 as nat) + seq!['.'] + decimal(v.1 as nat) + seq!['.'] + decimal(v.2 as nat) + (if v.3.len() > 0 {
        seq!['-'] + v.3
    } else {
        Seq::empty()
    }) + (if v.4.len() > 0 {
        seq!['+'] + v.4
    } else {
        Seq::empty()
    })
}

/// How a version is to change.
#[derive(Clone, Copy, Debug, PartialEq, Eq, Structural)]
pub enum VersionChange {
    /// patch + 1
    Update,
    /// minor + 1, patch 0, no pre-release tag or build metadata
    Bump,
}

/// `v` after `change`; `None` where the number to raise is at its largest.
pub open spec fn changed(v: (u64, u64, u64, Seq<char>, Seq<char>), change: VersionChange) -> Option<
    (u64, u64, u64, Seq<char>, Seq<char>),
> {
    match change {
        VersionChange::Update => if v.2 < u64::MAX {
            Some((v.0, v.1, (v.2 + 1) as u64, v.3, v.4))
        } else {
            None
        },
        VersionChange::Bump => if v.1 < u64::MAX {
            Some((v.0, (v.1 + 1) as u64, 0u64, Seq::empty(), Seq::empty()))
        } else {
            None
        },
    }
}

/// Why a version could not be changed.
#[derive(Debug)]
pub enum VersionError {
    /// The text found is no semantic version.
    Unparsable(String),
    /// The number to raise is at its largest.
    Overflow,
}

/// A version line changed: where it stands, what it now reads, and the
/// version before and after.
pub struct VersionUpdate {
    pub index: usize,
    pub line: String,
    pub old_version: String,
    pub new_version: String,
}

/// Where the search for the version of a Cargo.toml's [package] section
/// stands after some lines: whether it is inside that section, whether it
/// has ended, and the line and text found.
pub struct ScanView {
    pub in_package: bool,
    pub stopped: bool,
    pub found: Option<(nat, Seq<char>)>,
}

/// The version text of a `version = "..."` line, trimmed: the text between
/// its first `=` and the next, without surrounding blanks and quotes.
pub open spec fn assigned_text(t: Seq<char>, sep: char, quotes: Seq<char>) -> Seq<char> {
    strip_both(trimmed(second_piece(t, sep)->0), quotes)
}

/// Line `i` of a Cargo.toml read: "[package]" opens the section, another
/// header closes it, and the first line in it that starts with "version" and
/// has an `=` gives the version.
pub open spec fn cargo_step(st: ScanView, i: nat, line: Seq<char>) -> ScanView {
    let t = trimmed(line);
    if st.stopped {
        st
    } else if t == "[package]"@ {
        ScanView { in_package: true, ..st }
    } else if st.in_package && has_prefix(t, "["@) {
        ScanView { stopped: true, ..st }
    } else if st.in_package && has_prefix(t, "version"@) && second_piece(t, '=') is Some {
        ScanView { stopped: true, found: Some((i, assigned_text(t, '=', seq!['"']))), ..st }
    } else {
        st
    }
}

/// The lines of a Cargo.toml read in order.
pub open spec fn cargo_scan(lines: Seq<Seq<char>>) -> ScanView
    decreases lines.len(),
{
    if lines.len() == 0 {
        ScanView { in_package: false, stopped: false, found: None }
    } else {
        cargo_step(cargo_scan(lines.drop_last()), (lines.len() - 1) as nat, lines.last())
    }
}

/// Line `i` of a package.json read: the first line that starts with
/// `"version":` gives the version.
pub open spec fn package_json_step(st: ScanView, i: nat, line: Seq<char>) -> ScanView {
    let t = trimmed(line);
    if st.stopped {
        st
    } else if has_prefix(t, "\"version\":"@) && second_piece(t, ':') is Some {
        ScanView { stopped: true, found: Some((i, assigned_text(t, ':', seq!['"', ',']))), ..st }
    } else {
        st
    }
}

/// The lines of a package.json read in order.
pub open spec fn package_json_scan(lines: Seq<Seq<char>>) -> ScanView
    decreases lines.len(),
{
    if lines.len() == 0 {
        ScanView { in_package: false, stopped: false, found: None }
    } else {
        package_json_step(package_json_scan(lines.drop_last()), (lines.len() - 1) as nat, lines.last())
    }
}

pub open spec fn strings(v: Seq<String>) -> Seq<Seq<char>> {
    v.map_values(|s: String| s@)
}

/// What changing the version found by a scan gives: nothing where none was
/// found, else the line with the old version text replaced by the new one,
/// or the reason it could not be changed.
pub open spec fn update_result(
    lines: Seq<Seq<char>>,
    found: Option<(nat, Seq<char>)>,
    change: VersionChange,
    r: Result<Option<VersionUpdate>, VersionError>,
) -> bool {
    match found {
        None => r matches Ok(None),
        Some((i, text)) => match semver_parse(text) {
            None => r matches Err(VersionError::Unparsable(t)) && t@ == text,
            Some(v) => match changed(v, change) {
                None => r matches Err(VersionError::Overflow),
                Some(w) => r matches Ok(Some(u)) && u.index == i && u.old_version@ == version_text(v)
                    && u.new_version@ == version_text(w) && u.line@ == replace_all(
                    lines[i as int],
                    version_text(v),
                    version_text(w),
                ),
            },
        },
    }
}

/// The text of `v` as semver::Version writes it.
fn version_chars(v: &SemVer) -> (r: Vec<char>)
    ensures
        r@ == version_text(parts(*v)),
{
    let mut r = chars_of(u64_text(v.major).as_str());
    r.push('.');
    let minor = chars_of(u64_text(v.minor).as_str());
    append_chars(&mut r, &minor);
    r.push('.');
    let patch = chars_of(u64_text(v.patch).as_str());
    append_chars(&mut r, &patch);
    let pre = chars_of(v.pre.as_str());
    if pre.len() > 0 {
        r.push('-');
        append_chars(&mut r, &pre);
    }
    let build = chars_of(v.build.as_str());
    if build.len() > 0 {
        r.push('+');
        append_chars(&mut r, &build);
    }
    proof {
        let p = parts(*v);
        assert(r@ =~= version_text(p));
    }
    r
}

/// `v` after `change`; see `changed`.
fn apply_change(v: SemVer, change: VersionChange) -> (r: Option<SemVer>)
    ensures
        match r {
            Some(w) => changed(parts(v), change) == Some(parts(w)),
            None => changed(parts(v), change) is None,
        },
{
    match change {
        VersionChange::Update => if v.patch < u64::MAX {
            Some(SemVer { patch: v.patch + 1, ..v })
        } else {
            None
        },
        VersionChange::Bump => if v.minor < u64::MAX {
            let w = SemVer { major: v.major, minor: v.minor + 1, patch: 0, pre: String::new(), build: String::new() };
            proof {
                assert(w.pre@ =~= Seq::<char>::empty());
                assert(w.build@ =~= Seq::<char>::empty());
            }
            Some(w)
        } else {
            None
        },
    }
}

/// Changes the version text `text` found on line `index` of `lines`.
fn update_found(lines: &Vec<String>, index: usize, text: &Vec<char>, change: VersionChange) -> (r: Result<
    Option<VersionUpdate>,
    VersionError,
>)
    requires
        index < lines@.len(),
    ensures
        update_result(strings(lines@), Some((index as nat, text@)), change, r),
{
    let text_string = chars_to_string(text);
    match parse_semver(text_string.as_str()) {
        Err(_) => Err(VersionError::Unparsable(text_string)),
        Ok(v) => {
            let old_chars = version_chars(&v);
            let ghost pv = parts(v);
            match apply_change(v, change) {
                None => Err(VersionError::Overflow),
                Some(w) => {
                    let new_chars = version_chars(&w);
                    proof {
                        assert(old_chars@.len() > 0);
                    }
                    let line = chars_of(lines[index].as_str());
                    let replaced = replace_chars(&line, &old_chars, &new_chars);
                    Ok(
                        Some(
                            VersionUpdate {
                                index,
                                line: chars_to_string(&replaced),
                                old_version: chars_to_string(&old_chars),
                                new_version: chars_to_string(&new_chars),
                            },
                        ),
                    )
                },
            }
        },
    }
}

/// Changes the version of the [package] section of a Cargo.toml given as
/// its lines; see `cargo_scan` and `update_result`.
pub fn update_cargo_toml_version(lines: &Vec<String>, change: VersionChange) -> (r: Result<
    Option<VersionUpdate>,
    VersionError,
>)
    ensures
        update_result(strings(lines@), cargo_scan(strings(lines@)).found, change, r),
{
    let package = chars_of("[package]");
    let bracket = chars_of("[");
    let key = chars_of("version");
    let quote = chars_of("\"");
    proof {
        reveal_strlit("\"");
        assert(quote@ =~= seq!['"']);
    }
    let mut in_package = false;
    let mut i: usize = 0;
    while i < lines.len()
        invariant
            i <= lines@.len(),
            package@ == "[package]"@,
            bracket@ == "["@,
            key@ == "version"@,
            quote@ == seq!['"'],
            cargo_scan(strings(lines@.take(i as int))) == (ScanView { in_package, stopped: false, found: None }),
        decreases lines@.len() - i,
    {
        let t = chars_of(trim_str(lines[i].as_str()));
        proof {
            assert(strings(lines@.take(i + 1)).drop_last() =~= strings(lines@.take(i as int)));
            assert(strings(lines@).take(i + 1) =~= strings(lines@.take(i + 1)));
            assert(strings(lines@.take(i + 1)).last() == lines@[i as int]@);
            assert(cargo_scan(strings(lines@.take(i + 1))) == cargo_step(
                cargo_scan(strings(lines@.take(i as int))),
                i as nat,
                lines@[i as int]@,
            ));
        }
        if same_chars(&t, &package) {
            in_package = true;
        } else if in_package && starts_with(&t, &bracket) {
            proof {
                lemma_cargo_scan_stopped(strings(lines@), (i + 1) as nat);
                assert(strings(lines@).take(i + 1) =~= strings(lines@.take(i + 1)));
            }
            return Ok(None);
        } else if in_package && starts_with(&t, &key) {
            match split_second(&t, '=') {
                Some(piece) => {
                    let inner = chars_of(trim_str(chars_to_string(&piece).as_str()));
                    let text = strip_chars(&inner, &quote);
                    proof {
                        lemma_cargo_scan_stopped(strings(lines@), (i + 1) as nat);
                        assert(strings(lines@).take(i + 1) =~= strings(lines@.take(i + 1)));
                    }
                    return update_found(lines, i, &text, change);
                },
                None => {},
            }
        }
        i += 1;
    }
    proof {
        assert(lines@.take(i as int) =~= lines@);
    }
    Ok(None)
}

/// Once the scan has stopped, later lines change nothing.
proof fn lemma_cargo_scan_stopped(lines: Seq<Seq<char>>, k: nat)
    requires
        k <= lines.len(),
        cargo_scan(lines.take(k as int)).stopped,
    ensures
        cargo_scan(lines) == cargo_scan(lines.take(k as int)),
    decreases lines.len() - k,
{
    if k < lines.len() {
        assert(lines.take(k + 1 as int).drop_last() =~= lines.take(k as int));
        lemma_cargo_scan_stopped(lines, k + 1);
    } else {
        assert(lines.take(k as int) =~= lines);
    }
}

/// Once the scan has stopped, later lines change nothing.
proof fn lemma_package_json_scan_stopped(lines: Seq<Seq<char>>, k: nat)
    requires
        k <= lines.len(),
        package_json_scan(lines.take(k as int)).stopped,
    ensures
        package_json_scan(lines) == package_json_scan(lines.take(k as int)),
    decreases lines.len() - k,
{
    if k < lines.len() {
        assert(lines.take(k + 1 as int).drop_last() =~= lines.take(k as int));
        lemma_package_json_scan_stopped(lines, k + 1);
    } else {
        assert(lines.take(k as int) =~= lines);
    }
}

/// Changes the version of a package.json given as its lines; see
/// `package_json_scan` and `update_result`.
pub fn update_package_json_version(lines: &Vec<String>, change: VersionChange) -> (r: Result<
    Option<VersionUpdate>,
    VersionError,
>)
    ensures
        update_result(strings(lines@), package_json_scan(strings(lines@)).found, change, r),
{
    let key = chars_of("\"version\":");
    let strip = chars_of("\",");
    proof {
        reveal_strlit("\",");
        assert(strip@ =~= seq!['"', ',']);
    }
    let mut i: usize = 0;
    while i < lines.len()
        invariant
            i <= lines@.len(),
            key@ == "\"version\":"@,
            strip@ == seq!['"', ','],
            package_json_scan(strings(lines@.take(i as int))) == (ScanView {
                in_package: false,
                stopped: false,
                found: None,
            }),
        decreases lines@.len() - i,
    {
        let t = chars_of(trim_str(lines[i].as_str()));
        proof {
            assert(strings(lines@.take(i + 1)).drop_last() =~= strings(lines@.take(i as int)));
            assert(strings(lines@).take(i + 1) =~= strings(lines@.take(i + 1)));
            assert(strings(lines@.take(i + 1)).last() == lines@[i as int]@);
            assert(package_json_scan(strings(lines@.take(i + 1))) == package_json_step(
                package_json_scan(strings(lines@.take(i as int))),
                i as nat,
                lines@[i as int]@,
            ));
        }
        if starts_with(&t, &key) {
            match split_second(&t, ':') {
                Some(piece) => {
                    let inner = chars_of(trim_str(chars_to_string(&piece).as_str()));
                    let text = strip_chars(&inner, &strip);
                    proof {
                        lemma_package_json_scan_stopped(strings(lines@), (i + 1) as nat);
                        assert(strings(lines@).take(i + 1) =~= strings(lines@.take(i + 1)));
                    }
                    return update_found(lines, i, &text, change);
                },
                None => {},
            }
        }
        i += 1;
    }
    proof {
        assert(lines@.take(i as int) =~= lines@);
    }
    Ok(None)
}

/// The shortest requirement that keeps `v`'s compatibility range: the
/// major number where it is not zero, else `0.minor` where that is not
/// zero, else `0.0.patch`.
pub open spec fn simplified_text(v: (u64, u64, u64, Seq<char>, Seq<char>)) -> Seq<char> {
    if v.0 != 0 {
        decimal(v.0 as nat)
    } else if v.1 != 0 {
        seq!['0', '.'] + decimal(v.1 as nat)
    } else {
        seq!['0', '.', '0', '.'] + decimal(v.2 as nat)
    }
}

/// `line` with the version requirement `vs` replaced by its shortest form,
/// where it is a full version written longer; else `line` unchanged.
pub open spec fn dependency_line(line: Seq<char>, vs: Seq<char>) -> Seq<char> {
    match semver_parse(vs) {
        Some(v) => if vs != simplified_text(v) && vs.len() > 0 {
            replace_all(line, vs, simplified_text(v))
        } else {
            line
        },
        None => line,
    }
}

/// `original_line` with the version requirement `version_str` shortened;
/// see `dependency_line`.
pub fn get_updated_dependency_line(original_line: &str, version_str: &str) -> (r: String)
    ensures
        r@ == dependency_line(original_line@, version_str@),
{
    let line = chars_of(original_line);
    match parse_semver(version_str) {
        Ok(v) => {
            let mut simple: Vec<char> = Vec::new();
            if v.major != 0 {
                simple = chars_of(u64_text(v.major).as_str());
            } else if v.minor != 0 {
                simple.push('0');
                simple.push('.');
                append_chars(&mut simple, &chars_of(u64_text(v.minor).as_str()));
            } else {
                simple.push('0');
                simple.push('.');
                simple.push('0');
                simple.push('.');
                append_chars(&mut simple, &chars_of(u64_text(v.patch).as_str()));
            }
            proof {
                assert(simple@ =~= simplified_text(parts(v)));
            }
            let given = chars_of(version_str);
            if !same_chars(&given, &simple) && given.len() > 0 {
                chars_to_string(&replace_chars(&line, &given, &simple))
            } else {
                chars_to_string(&line)
            }
        },
        Err(_) => chars_to_string(&line),
    }
}

} // verus!
