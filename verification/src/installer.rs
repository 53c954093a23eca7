//! Installing, locating and uninstalling programs.
//!
//! Everything here decides or composes text: which archive kind a package
//! is, which executable is the program, which uninstall command to run and
//! the messages reported back. Reading directories and starting processes is
//! left to the caller, who passes in what it found.

use vstd::prelude::*;

use crate::config::{
    join_path, join_path_str, package_cache_dir, package_cache_dir_spec, path_file_name,
    path_file_name_chars, safe_file_name, safe_file_name_spec, lemma_safe_file_name_plain,
    is_reserved_path_char, prefix_len, is_separator,
};
use crate::encoding::{json_quote, json_string_literal};
use crate::text::{
    chars_of, contains_seq, contains_str, decimal, ends_with_str, eq_ignore_ascii_case,
    eq_ignore_ascii_case_exec, lowercase_chars, push_all, push_decimal, push_str, str_eq,
    string_from_chars, trim, trim_by, trim_chars, unicode_lowercase, CharSet,
};
use crate::web::opt_string_view;

verus! {

/// What an install, cache or uninstall request reports back.
pub struct InstallResult {
    pub id: String,
    pub success: bool,
    pub message: String,
    pub shortcut_path: Option<String>,
    pub package_path: Option<String>,
    pub used_cache: bool,
}

fn concat2(a: &str, b: &str) -> (res: String)
    ensures
        res@ == a@ + b@,
{
    let mut v = chars_of(a);
    push_str(&mut v, b);
    string_from_chars(v.as_slice())
}

// ---------------------------------------------------------------------------
// Package kinds and install messages
// ---------------------------------------------------------------------------
/// How a downloaded package becomes an installed program.
#[derive(PartialEq, Eq, Structural, Debug)]
pub enum PackageKind {
    /// A zip archive, unpacked into the install directory.
    Zip,
    /// A 7z archive, unpacked with the system `tar`.
    SevenZip,
    /// A portable executable, copied into the install directory.
    PortableExe,
}

pub open spec fn package_kind_spec(file_name: Seq<char>) -> Option<PackageKind> {
    if ".zip"@.is_suffix_of(file_name) {
        Some(PackageKind::Zip)
    } else if ".7z"@.is_suffix_of(file_name) {
        Some(PackageKind::SevenZip)
    } else if ".exe"@.is_suffix_of(file_name) {
        Some(PackageKind::PortableExe)
    } else {
        None
    }
}

/// The package kind named by the file's extension; other files are refused.
pub fn package_kind(file_name: &str) -> (res: Result<PackageKind, String>)
    ensures
        match package_kind_spec(file_name@) {
            Some(k) => res == Ok::<PackageKind, String>(k),
            None => res matches Err(e) && e@ == "不支持的格式: "@ + file_name@,
        },
{
    let cs = chars_of(file_name);
    if ends_with_str(cs.as_slice(), ".zip") {
        Ok(PackageKind::Zip)
    } else if ends_with_str(cs.as_slice(), ".7z") {
        Ok(PackageKind::SevenZip)
    } else if ends_with_str(cs.as_slice(), ".exe") {
        Ok(PackageKind::PortableExe)
    } else {
        Err(concat2("不支持的格式: ", file_name))
    }
}

pub open spec fn install_message(used_cache: bool) -> Seq<char> {
    if used_cache {
        "使用缓存安装完成"@
    } else {
        "下载并缓存后安装完成"@
    }
}

pub open spec fn cache_message(used_cache: bool) -> Seq<char> {
    if used_cache {
        "已使用本地缓存"@
    } else {
        "安装包已缓存"@
    }
}

/// The report of a finished install.
pub fn installed_result(id: String, used_cache: bool, shortcut_path: String, package_path: String) -> (res:
    InstallResult)
    ensures
        res.id == id,
        res.success,
        res.message@ == install_message(used_cache),
        res.shortcut_path == Some(shortcut_path),
        res.package_path == Some(package_path),
        res.used_cache == used_cache,
{
    let message = if used_cache {
        String::from_str("使用缓存安装完成")
    } else {
        String::from_str("下载并缓存后安装完成")
    };
    InstallResult {
        id,
        success: true,
        message,
        shortcut_path: Some(shortcut_path),
        package_path: Some(package_path),
        used_cache,
    }
}

/// The report of a package that is now in the cache.
pub fn cached_result(id: String, used_cache: bool, package_path: String) -> (res: InstallResult)
    ensures
        res.id == id,
        res.success,
        res.message@ == cache_message(used_cache),
        res.shortcut_path.is_none(),
        res.package_path == Some(package_path),
        res.used_cache == used_cache,
{
    let message = if used_cache {
        String::from_str("已使用本地缓存")
    } else {
        String::from_str("安装包已缓存")
    };
    InstallResult {
        id,
        success: true,
        message,
        shortcut_path: None,
        package_path: Some(package_path),
        used_cache,
    }
}

/// The error for a download whose size is not the expected one.
pub fn size_mismatch_message(expected_size: u64, actual: u64) -> (res: String)
    ensures
        res@ == "安装包大小不匹配: 期望 "@ + decimal(expected_size as nat) + " 字节,实际 "@
            + decimal(actual as nat) + " 字节"@,
{
    let mut v = chars_of("安装包大小不匹配: 期望 ");
    push_decimal(&mut v, expected_size as u128);
    push_str(&mut v, " 字节,实际 ");
    push_decimal(&mut v, actual as u128);
    push_str(&mut v, " 字节");
    string_from_chars(v.as_slice())
}

/// Where a package is downloaded to before it is moved into the cache: the
/// cached file's name with `.part` added, in the same directory.
pub fn package_temp_path(data_dir: &str, id: &str, version: &str, file_name: &str) -> (res: String)
    ensures
        res@ == join_path(
            package_cache_dir_spec(data_dir@, id@, version@),
            safe_file_name_spec(file_name@) + ".part"@,
        ),
{
    let dir = package_cache_dir(data_dir, id, version);
    let name = safe_file_name(file_name);
    let temp = concat2(name.as_str(), ".part");
    join_path_str(dir.as_str(), temp.as_str())
}

/// The temporary download is the cached package's path with `.part` added.
pub proof fn law_temp_path_is_part_file(data_dir: Seq<char>, id: Seq<char>, version: Seq<char>, file_name: Seq<char>)
    ensures
        join_path(
            package_cache_dir_spec(data_dir, id, version),
            safe_file_name_spec(file_name) + ".part"@,
        ) == join_path(package_cache_dir_spec(data_dir, id, version), safe_file_name_spec(file_name))
            + ".part"@,
{
    let dir = package_cache_dir_spec(data_dir, id, version);
    let name = safe_file_name_spec(file_name);
    let part = ".part"@;
    reveal_strlit(".part");
    lemma_safe_file_name_plain(file_name);
    let joined = name + part;
    assert(joined[0] == name[0]);
    assert(!is_reserved_path_char(name[0]));
    if name.len() >= 2 {
        assert(joined[1] == name[1]);
        assert(!is_reserved_path_char(name[1]));
    } else {
        assert(joined[1] == '.');
    }
    assert(prefix_len(joined) == 0);
    assert(prefix_len(name) == 0);
    if dir.len() == 0 || is_separator(dir.last()) || (dir.len() == 2 && prefix_len(dir) == 2) {
        assert(dir + joined =~= dir + name + part);
    } else {
        assert(dir + seq!['\\'] + joined =~= dir + seq!['\\'] + name + part);
    }
}

// ---------------------------------------------------------------------------
// Finding the program's executable
// ---------------------------------------------------------------------------
/// Names of helper programs shipped beside the main one (after lowercasing).
pub open spec fn is_helper_name(lower: Seq<char>) -> bool {
    contains_seq(lower, "uninstall"@) || contains_seq(lower, "setup"@) || contains_seq(
        lower,
        "crash"@,
    ) || contains_seq(lower, "updater"@) || contains_seq(lower, "elevate"@) || lower
        == "update.exe"@
}

/// Whether an executable is an uninstaller, setup, crash reporter or updater
/// rather than the program itself.
pub fn is_helper_exe(name: &str) -> (res: bool)
    ensures
        res == is_helper_name(unicode_lowercase(name@)),
{
    let lower = lowercase_chars(chars_of(name).as_slice());
    let l = lower.as_slice();
    contains_str(l, "uninstall") || contains_str(l, "setup") || contains_str(l, "crash")
        || contains_str(l, "updater") || contains_str(l, "elevate") || crate::text::eq_str(
        l,
        "update.exe",
    )
}

/// The position of the last `c` in `s`.
pub open spec fn last_index_of(s: Seq<char>, c: char) -> Option<int>
    decreases s.len(),
{
    if s.len() == 0 {
        None
    } else if s.last() == c {
        Some(s.len() - 1)
    } else {
        last_index_of(s.drop_last(), c)
    }
}

/// `Path::extension` of a file name: what follows the last `.`, unless the
/// name is `..`, has no `.`, or has nothing before its last `.`.
pub open spec fn file_extension(name: Seq<char>) -> Option<Seq<char>> {
    if name == ".."@ {
        None
    } else {
        match last_index_of(name, '.') {
            Some(k) => if k == 0 {
                None
            } else {
                Some(name.skip(k + 1))
            },
            None => None,
        }
    }
}

proof fn lemma_last_index_of(s: Seq<char>, c: char)
    ensures
        match last_index_of(s, c) {
            Some(k) => 0 <= k < s.len() && s[k] == c && forall|j: int| k < j < s.len() ==> s[j]
                != c,
            None => forall|j: int| 0 <= j < s.len() ==> s[j] != c,
        },
    decreases s.len(),
{
    if s.len() > 0 {
        lemma_last_index_of(s.drop_last(), c);
        assert(forall|j: int| 0 <= j < s.len() - 1 ==> s.drop_last()[j] == s[j]);
    }
}

proof fn lemma_last_index_unique(s: Seq<char>, c: char, k: int)
    requires
        0 <= k < s.len(),
        s[k] == c,
        forall|j: int| k < j < s.len() ==> s[j] != c,
    ensures
        last_index_of(s, c) == Some(k),
    decreases s.len(),
{
    if s.last() != c {
        assert forall|j: int| k < j < s.drop_last().len() implies s.drop_last()[j] != c by {}
        lemma_last_index_unique(s.drop_last(), c, k);
    }
}

fn file_extension_chars(name: &[char]) -> (res: Option<Vec<char>>)
    ensures
        match res {
            Some(e) => file_extension(name@) == Some(e@),
            None => file_extension(name@).is_none(),
        },
{
    proof {
        reveal_strlit("..");
        lemma_last_index_of(name@, '.');
    }
    if name.len() == 2 && name[0] == '.' && name[1] == '.' {
        assert(name@ =~= ".."@);
        return None;
    }
    assert(name@ != ".."@);
    let mut i: usize = name.len();
    while i > 0
        invariant
            i <= name@.len(),
            name@ != ".."@,
            forall|j: int| i <= j < name@.len() ==> name@[j] != '.',
        decreases i,
    {
        if name[i - 1] == '.' {
            proof {
                lemma_last_index_unique(name@, '.', i - 1);
            }
            if i - 1 == 0 {
                return None;
            }
            let ext = crate::text::slice_chars(name, i, name.len());
            assert(ext@ =~= name@.skip(i as int));
            assert(last_index_of(name@, '.') == Some(i - 1));
            assert(file_extension(name@) == Some(name@.skip(i as int)));
            return Some(ext);
        }
        i = i - 1;
    }
    None
}

/// Whether a file is an executable that may be the installed program.
pub fn is_exe_candidate(name: &str) -> (res: bool)
    ensures
        res == (file_extension(name@) == Some("exe"@) && !is_helper_name(unicode_lowercase(name@))),
{
    let cs = chars_of(name);
    let is_exe = match file_extension_chars(cs.as_slice()) {
        Some(e) => crate::text::eq_str(e.as_slice(), "exe"),
        None => false,
    };
    is_exe && !is_helper_exe(name)
}

/// Uninstallers, setup programs, crash reporters, updaters, elevation helpers
/// and `update.exe` are helpers, whatever the case of their names, and a
/// helper is never taken for the installed program; an `.exe` that is none of
/// these is a candidate.
pub proof fn law_helpers_are_never_candidates(name: Seq<char>)
    ensures
        ({
            let lower = unicode_lowercase(name);
            (contains_seq(lower, "uninstall"@) || contains_seq(lower, "setup"@) || contains_seq(
                lower,
                "crash"@,
            ) || contains_seq(lower, "updater"@) || contains_seq(lower, "elevate"@) || lower
                == "update.exe"@) ==> is_helper_name(lower) && !(file_extension(name) == Some(
                "exe"@,
            ) && !is_helper_name(lower))
        }),
        ({
            let lower = unicode_lowercase(name);
            (file_extension(name) == Some("exe"@) && !contains_seq(lower, "uninstall"@)
                && !contains_seq(lower, "setup"@) && !contains_seq(lower, "crash"@)
                && !contains_seq(lower, "updater"@) && !contains_seq(lower, "elevate"@) && lower
                != "update.exe"@) ==> (file_extension(name) == Some("exe"@) && !is_helper_name(
                lower,
            ))
        }),
{
}

/// An executable found in the unpacked files: how deep it lies below the
/// install directory (0 for the directory itself), its size and its path.
pub struct ExeCandidate {
    pub depth: usize,
    pub size: u64,
    pub path: String,
}

pub struct CandidateView {
    pub depth: nat,
    pub size: nat,
    pub path: Seq<char>,
}

pub open spec fn candidates_view(cs: Seq<ExeCandidate>) -> Seq<CandidateView> {
    cs.map_values(|c: ExeCandidate| CandidateView { depth: c.depth as nat, size: c.size as nat, path: c.path@ })
}

/// Lexicographic order of character sequences by code point (the order of
/// their UTF-8 bytes).
pub open spec fn seq_less(a: Seq<char>, b: Seq<char>) -> bool
    decreases a.len(),
{
    if a.len() == 0 {
        b.len() > 0
    } else if b.len() == 0 {
        false
    } else if a[0] < b[0] {
        true
    } else if a[0] == b[0] {
        seq_less(a.drop_first(), b.drop_first())
    } else {
        false
    }
}

/// The order of optional file names: no name first.
pub open spec fn name_less(a: Option<Seq<char>>, b: Option<Seq<char>>) -> bool {
    match (a, b) {
        (None, Some(_)) => true,
        (Some(x), Some(y)) => seq_less(x, y),
        _ => false,
    }
}

/// `a` is preferred to `b`: it lies shallower, or as deep and is larger, or
/// as deep and as large and its file name sorts first.
pub open spec fn ranks_before(a: CandidateView, b: CandidateView) -> bool {
    a.depth < b.depth || (a.depth == b.depth && (a.size > b.size || (a.size == b.size
        && name_less(path_file_name(a.path), path_file_name(b.path)))))
}

/// Position `k` holds the program: no candidate ranks before it, and it
/// ranks before every earlier one (the first of equally ranked candidates).
pub open spec fn is_best_at(cs: Seq<CandidateView>, k: int) -> bool {
    &&& 0 <= k < cs.len()
    &&& forall|j: int| 0 <= j < cs.len() ==> !ranks_before(#[trigger] cs[j], cs[k])
    &&& forall|j: int| 0 <= j < k ==> ranks_before(cs[k], #[trigger] cs[j])
}

proof fn lemma_seq_less_order(a: Seq<char>, b: Seq<char>, c: Seq<char>)
    ensures
        !seq_less(a, a),
        seq_less(a, b) ==> !seq_less(b, a),
        a != b ==> seq_less(a, b) || seq_less(b, a),
        seq_less(a, b) && seq_less(b, c) ==> seq_less(a, c),
    decreases a.len(),
{
    if a.len() > 0 && b.len() > 0 && c.len() > 0 {
        lemma_seq_less_order(a.drop_first(), b.drop_first(), c.drop_first());
    }
    if a.len() > 0 {
        lemma_seq_less_order(a.drop_first(), a.drop_first(), a.drop_first());
    }
    if a.len() > 0 && b.len() > 0 {
        lemma_seq_less_order(a.drop_first(), b.drop_first(), b.drop_first());
        if a != b && a[0] == b[0] {
            assert(a.drop_first() != b.drop_first()) by {
                if a.drop_first() == b.drop_first() {
                    assert(a =~= seq![a[0]] + a.drop_first());
                    assert(b =~= seq![b[0]] + b.drop_first());
                }
            }
        }
    }
    if a.len() == 0 && b.len() == 0 {
        assert(a =~= b);
    }
}

proof fn lemma_name_less_order(a: Option<Seq<char>>, b: Option<Seq<char>>, c: Option<Seq<char>>)
    ensures
        !name_less(a, a),
        a != b ==> name_less(a, b) || name_less(b, a),
        name_less(a, b) ==> !name_less(b, a),
        name_less(a, b) && name_less(b, c) ==> name_less(a, c),
{
    match (a, b, c) {
        (Some(x), Some(y), Some(z)) => lemma_seq_less_order(x, y, z),
        (Some(x), Some(y), None) => lemma_seq_less_order(x, y, y),
        (Some(x), None, _) => lemma_seq_less_order(x, x, x),
        (None, Some(y), _) => lemma_seq_less_order(y, y, y),
        _ => {},
    }
}

/// The ranking is a strict weak order: candidates that do not rank against
/// each other are interchangeable.
proof fn lemma_ranks_order(x: CandidateView, y: CandidateView, z: CandidateView)
    ensures
        !ranks_before(x, x),
        ranks_before(x, y) && ranks_before(y, z) ==> ranks_before(x, z),
        !ranks_before(x, y) && ranks_before(z, y) ==> ranks_before(z, x),
{
    let nx = path_file_name(x.path);
    let ny = path_file_name(y.path);
    let nz = path_file_name(z.path);
    lemma_name_less_order(nx, ny, nz);
    lemma_name_less_order(nz, ny, nx);
    lemma_name_less_order(nz, nx, ny);
    lemma_name_less_order(ny, nx, nz);
}

fn name_less_exec(a: &Option<Vec<char>>, b: &Option<Vec<char>>) -> (res: bool)
    ensures
        res == name_less(
            match a {
                Some(v) => Some(v@),
                None => None,
            },
            match b {
                Some(v) => Some(v@),
                None => None,
            },
        ),
{
    match (a, b) {
        (None, Some(_)) => true,
        (Some(x), Some(y)) => seq_less_exec(x.as_slice(), y.as_slice()),
        _ => false,
    }
}

fn seq_less_exec(a: &[char], b: &[char]) -> (res: bool)
    ensures
        res == seq_less(a@, b@),
{
    let mut i: usize = 0;
    assert(a@.skip(0) =~= a@);
    assert(b@.skip(0) =~= b@);
    while i < a.len() && i < b.len() && a[i] == b[i]
        invariant
            i <= a@.len(),
            i <= b@.len(),
            seq_less(a@, b@) == seq_less(a@.skip(i as int), b@.skip(i as int)),
        decreases a@.len() - i,
    {
        assert(a@.skip(i as int).drop_first() =~= a@.skip(i + 1));
        assert(b@.skip(i as int).drop_first() =~= b@.skip(i + 1));
        i = i + 1;
    }
    if i == a.len() {
        i < b.len()
    } else if i == b.len() {
        false
    } else {
        assert(a@.skip(i as int)[0] == a@[i as int]);
        assert(b@.skip(i as int)[0] == b@[i as int]);
        a[i] < b[i]
    }
}

/// The position of the program among the candidates, as a stable sort by
/// (depth, largest size, file name) would put first.
pub fn best_candidate(cs: &[ExeCandidate]) -> (res: Option<usize>)
    ensures
        match res {
            Some(k) => is_best_at(candidates_view(cs@), k as int),
            None => cs@.len() == 0,
        },
{
    if cs.len() == 0 {
        return None;
    }
    let ghost v = candidates_view(cs@);
    let mut names: Vec<Option<Vec<char>>> = Vec::new();
    let mut i: usize = 0;
    while i < cs.len()
        invariant
            i <= cs@.len(),
            names@.len() == i,
            forall|j: int|
                0 <= j < i ==> (match #[trigger] names@[j] {
                    Some(n) => Some(n@),
                    None => None,
                }) == path_file_name(cs@[j].path@),
        decreases cs@.len() - i,
    {
        let pc = chars_of(cs[i].path.as_str());
        names.push(path_file_name_chars(pc.as_slice()));
        i = i + 1;
    }
    let mut best: usize = 0;
    let mut j: usize = 1;
    assert(v[0] == candidates_view(cs@)[0]);
    proof {
        lemma_ranks_order(v[0], v[0], v[0]);
    }
    while j < cs.len()
        invariant
            v == candidates_view(cs@),
            names@.len() == cs@.len(),
            forall|t: int|
                0 <= t < cs@.len() ==> (match #[trigger] names@[t] {
                    Some(n) => Some(n@),
                    None => None,
                }) == path_file_name(cs@[t].path@),
            1 <= j <= cs@.len(),
            best < j,
            forall|t: int| 0 <= t < j ==> !ranks_before(#[trigger] v[t], v[best as int]),
            forall|t: int| 0 <= t < best ==> ranks_before(v[best as int], #[trigger] v[t]),
        decreases cs@.len() - j,
    {
        let a = &cs[j];
        let b = &cs[best];
        assert(v[j as int] == CandidateView { depth: a.depth as nat, size: a.size as nat, path: a.path@ });
        assert(v[best as int] == CandidateView { depth: b.depth as nat, size: b.size as nat, path: b.path@ });
        let better = a.depth < b.depth || (a.depth == b.depth && (a.size > b.size || (a.size
            == b.size && name_less_exec(&names[j], &names[best]))));
        assert(better == ranks_before(v[j as int], v[best as int]));
        if better {
            proof {
                assert forall|t: int| 0 <= t < j + 1 implies !ranks_before(
                    #[trigger] v[t],
                    v[j as int],
                ) by {
                    lemma_ranks_order(v[t], v[j as int], v[best as int]);
                    lemma_ranks_order(v[j as int], v[j as int], v[j as int]);
                }
                assert forall|t: int| 0 <= t < j implies ranks_before(
                    v[j as int],
                    #[trigger] v[t],
                ) by {
                    lemma_ranks_order(v[t], v[best as int], v[j as int]);
                }
            }
            best = j;
        }
        j = j + 1;
    }
    Some(best)
}

/// The program lies in the shallowest directory that holds a candidate, and
/// no candidate there is larger.
pub proof fn law_best_candidate_shallowest_largest(cs: Seq<CandidateView>, k: int)
    requires
        is_best_at(cs, k),
    ensures
        forall|j: int| 0 <= j < cs.len() ==> cs[k].depth <= #[trigger] cs[j].depth,
        forall|j: int|
            0 <= j < cs.len() && #[trigger] cs[j].depth == cs[k].depth ==> cs[j].size <= cs[k].size,
{
    assert forall|j: int| 0 <= j < cs.len() implies cs[k].depth <= #[trigger] cs[j].depth by {
        assert(!ranks_before(cs[j], cs[k]));
    }
    assert forall|j: int| 0 <= j < cs.len() && #[trigger] cs[j].depth == cs[k].depth implies cs[j].size
        <= cs[k].size by {
        assert(!ranks_before(cs[j], cs[k]));
    }
}

/// At most one position holds the program: the choice is determined.
pub proof fn law_best_candidate_unique(cs: Seq<CandidateView>, k1: int, k2: int)
    requires
        is_best_at(cs, k1),
        is_best_at(cs, k2),
    ensures
        k1 == k2,
{
    if k1 < k2 {
        assert(ranks_before(cs[k2], cs[k1]));
        assert(!ranks_before(cs[k2], cs[k1]));
    } else if k2 < k1 {
        assert(ranks_before(cs[k1], cs[k2]));
        assert(!ranks_before(cs[k1], cs[k2]));
    }
}

/// The program to link to after unpacking: the configured executable when
/// it exists (`preferred_found`), else the best candidate.
pub fn find_main_exe(preferred_found: Option<String>, candidates: &[ExeCandidate]) -> (res: Result<
    String,
    String,
>)
    ensures
        match preferred_found {
            Some(p) => res == Ok::<String, String>(p),
            None => match res {
                Ok(p) => exists|k: int|
                    is_best_at(candidates_view(candidates@), k) && p@ == candidates@[k].path@,
                Err(e) => candidates@.len() == 0 && e@ == "解压完成但没找到 exe"@,
            },
        },
{
    match preferred_found {
        Some(p) => Ok(p),
        None => match best_candidate(candidates) {
            Some(k) => Ok(candidates[k].path.clone()),
            None => Err(String::from_str("解压完成但没找到 exe")),
        },
    }
}

/// Where the configured executable would lie in the install directory.
pub fn preferred_exe_path(
    install_dir: &str,
    id: &str,
    custom: &[crate::custom_software::CustomSoftwareConfig],
) -> (res: Option<String>)
    ensures
        opt_string_view(res) == match crate::software::preferred_exe_spec(
            id@,
            crate::custom_software::configs_view(custom@),
        ) {
            Some(n) => Some(join_path(install_dir@, n)),
            None => None,
        },
{
    match crate::software::preferred_main_exe(id, custom) {
        Some(n) => Some(join_path_str(install_dir, n.as_str())),
        None => None,
    }
}

// ---------------------------------------------------------------------------
// Desktop shortcuts
// ---------------------------------------------------------------------------
/// The name of a program's desktop shortcut.
pub open spec fn display_name_spec(id: Seq<char>) -> Seq<char> {
    if id == "stranslate"@ {
        "STranslate"@
    } else if id == "quickclipboard"@ {
        "QuickClipboard"@
    } else if id == "leagueakari"@ {
        "LeagueAkari"@
    } else if id == "wegame"@ {
        "WeGame"@
    } else if id == "amd-adrenalin"@ {
        "AMD Adrenalin Edition"@
    } else {
        id
    }
}

pub fn display_name_for_id(id: &str) -> (res: String)
    ensures
        res@ == display_name_spec(id@),
{
    if str_eq(id, "stranslate") {
        String::from_str("STranslate")
    } else if str_eq(id, "quickclipboard") {
        String::from_str("QuickClipboard")
    } else if str_eq(id, "leagueakari") {
        String::from_str("LeagueAkari")
    } else if str_eq(id, "wegame") {
        String::from_str("WeGame")
    } else if str_eq(id, "amd-adrenalin") {
        String::from_str("AMD Adrenalin Edition")
    } else {
        String::from_str(id)
    }
}

/// `{desktop}\{display name}.lnk`.
pub open spec fn shortcut_path_in(desktop: Seq<char>, id: Seq<char>) -> Seq<char> {
    join_path(desktop, display_name_spec(id) + ".lnk"@)
}

/// Calls `dirs::desktop_dir`, the path taken lossily as text. What it
/// returns depends on the user's environment, so nothing is stated of it.
#[verifier::external_body]
fn desktop_dir() -> (res: Option<String>) {
    dirs::desktop_dir().map(|p| p.to_string_lossy().into_owned())
}

/// The shortcut path for a program, given the desktop directory if one was
/// found.
pub fn shortcut_path_at(desktop: Option<String>, id: &str) -> (res: Result<String, String>)
    ensures
        match desktop {
            Some(d) => res matches Ok(p) && p@ == shortcut_path_in(d@, id@),
            None => res matches Err(e) && e@ == "找不到桌面目录"@,
        },
{
    match desktop {
        Some(d) => {
            let name = display_name_for_id(id);
            let file = concat2(name.as_str(), ".lnk");
            Ok(join_path_str(d.as_str(), file.as_str()))
        },
        None => Err(String::from_str("找不到桌面目录")),
    }
}

/// Where the program's desktop shortcut lies on this machine's desktop.
pub fn shortcut_path_for_id(id: &str) -> (res: Result<String, String>)
    ensures
        res matches Ok(p) ==> exists|d: Seq<char>| p@ == shortcut_path_in(d, id@),
        res matches Err(e) ==> e@ == "找不到桌面目录"@,
{
    let desktop = desktop_dir();
    let ghost dg = desktop;
    let r = shortcut_path_at(desktop, id);
    proof {
        if dg is Some {
            let d = dg->0;
            assert(r matches Ok(p) && p@ == shortcut_path_in(d@, id@));
        }
    }
    r
}

pub open spec fn shortcut_script_spec(shortcut: Seq<char>, target: Seq<char>, working_dir: Seq<char>) -> Seq<
    char,
> {
    "$s=(New-Object -COM WScript.Shell).CreateShortcut('"@ + shortcut + "');$s.TargetPath='"@
        + target + "';$s.WorkingDirectory='"@ + working_dir + "';$s.Save()"@
}

/// The PowerShell command that creates a `.lnk` shortcut to `target`,
/// starting in `working_dir`.
pub fn shortcut_script(shortcut: &str, target: &str, working_dir: &str) -> (res: String)
    ensures
        res@ == shortcut_script_spec(shortcut@, target@, working_dir@),
{
    let mut v = chars_of("$s=(New-Object -COM WScript.Shell).CreateShortcut('");
    push_str(&mut v, shortcut);
    push_str(&mut v, "');$s.TargetPath='");
    push_str(&mut v, target);
    push_str(&mut v, "';$s.WorkingDirectory='");
    push_str(&mut v, working_dir);
    push_str(&mut v, "';$s.Save()");
    string_from_chars(v.as_slice())
}

// ---------------------------------------------------------------------------
// Registry uninstall entries
// ---------------------------------------------------------------------------
/// The fields of a Windows uninstall registry entry that are read.
pub struct UninstallEntry {
    pub display_name: Option<String>,
    pub display_icon: Option<String>,
    pub install_location: Option<String>,
    pub uninstall_string: Option<String>,
    pub quiet_uninstall_string: Option<String>,
}

/// The path in a registry value such as `"C:\x\app.exe",0`: trimmed,
/// unquoted, cut at the first comma, and trimmed and unquoted again.
pub open spec fn pathish_path(value: Seq<char>) -> Seq<char> {
    let first = crate::text::split_on(trim_by(trim(value), CharSet::Quote), CharSet::Comma)[0];
    trim_by(trim(first), CharSet::Quote)
}

/// The path in a registry value when it names the executable `exe_name`
/// (compared ignoring ASCII case).
pub open spec fn named_exe_spec(value: Seq<char>, exe_name: Seq<char>) -> Option<Seq<char>> {
    let p = pathish_path(value);
    if p.len() == 0 {
        None
    } else {
        match path_file_name(p) {
            Some(n) => if eq_ignore_ascii_case(n, exe_name) {
                Some(p)
            } else {
                None
            },
            None => None,
        }
    }
}

pub fn named_exe_from_pathish(value: &str, exe_name: &str) -> (res: Option<String>)
    ensures
        opt_string_view(res) == named_exe_spec(value@, exe_name@),
{
    let t = trim_chars(chars_of(value).as_slice(), CharSet::WhiteSpace);
    let u = trim_chars(t.as_slice(), CharSet::Quote);
    let parts = crate::text::split_exec(u.as_slice(), CharSet::Comma);
    proof {
        crate::text::lemma_split_nonempty(u@, CharSet::Comma);
    }
    assert(parts@[0]@ == crate::text::split_on(u@, CharSet::Comma)[0]);
    let f = trim_chars(parts[0].as_slice(), CharSet::WhiteSpace);
    let p = trim_chars(f.as_slice(), CharSet::Quote);
    if p.len() == 0 {
        return None;
    }
    match path_file_name_chars(p.as_slice()) {
        Some(n) => {
            let exe = chars_of(exe_name);
            if eq_ignore_ascii_case_exec(n.as_slice(), exe.as_slice()) {
                Some(string_from_chars(p.as_slice()))
            } else {
                None
            }
        },
        None => None,
    }
}

/// Whether the entry's display name mentions WeGame.
pub fn is_wegame_entry(entry: &UninstallEntry) -> (res: bool)
    ensures
        res == match entry.display_name {
            Some(n) => contains_seq(unicode_lowercase(n@), "wegame"@),
            None => false,
        },
{
    match &entry.display_name {
        Some(n) => {
            let l = lowercase_chars(chars_of(n.as_str()).as_slice());
            contains_str(l.as_slice(), "wegame")
        },
        None => false,
    }
}

/// Whether a file's name is `file_name`, ignoring ASCII case or after
/// Unicode lowercasing.
pub fn exe_name_matches(name: &str, file_name: &str) -> (res: bool)
    ensures
        res == (eq_ignore_ascii_case(name@, file_name@) || unicode_lowercase(name@)
            == unicode_lowercase(file_name@)),
{
    let a = chars_of(name);
    let b = chars_of(file_name);
    if eq_ignore_ascii_case_exec(a.as_slice(), b.as_slice()) {
        return true;
    }
    let la = lowercase_chars(a.as_slice());
    let lb = lowercase_chars(b.as_slice());
    crate::text::chars_eq(la.as_slice(), lb.as_slice())
}

pub open spec fn wegame_common_paths(roots: Seq<Seq<char>>) -> Seq<Seq<char>>
    decreases roots.len(),
{
    if roots.len() == 0 {
        Seq::empty()
    } else {
        let r = roots.last();
        wegame_common_paths(roots.drop_last()) + seq![
            join_path(join_path(join_path(r, "Tencent"@), "WeGame"@), "wegame.exe"@),
            join_path(join_path(r, "WeGame"@), "wegame.exe"@),
        ]
    }
}

/// The usual places of `wegame.exe` below each root, in order.
pub fn common_wegame_exe_paths(roots: &[String]) -> (res: Vec<String>)
    ensures
        crate::text::strings_view(res@) == wegame_common_paths(crate::text::strings_view(roots@)),
{
    let mut out: Vec<String> = Vec::new();
    let mut i: usize = 0;
    while i < roots.len()
        invariant
            i <= roots@.len(),
            crate::text::strings_view(out@) == wegame_common_paths(
                crate::text::strings_view(roots@).take(i as int),
            ),
        decreases roots@.len() - i,
    {
        let r = roots[i].as_str();
        let a = join_path_str(r, "Tencent");
        let a = join_path_str(a.as_str(), "WeGame");
        let a = join_path_str(a.as_str(), "wegame.exe");
        let b = join_path_str(r, "WeGame");
        let b = join_path_str(b.as_str(), "wegame.exe");
        let ghost before = out@;
        out.push(a);
        out.push(b);
        proof {
            let rs = crate::text::strings_view(roots@);
            assert(rs.take(i + 1).drop_last() =~= rs.take(i as int));
            assert(rs.take(i + 1).last() == roots@[i as int]@);
            assert(crate::text::strings_view(out@) =~= crate::text::strings_view(before) + seq![
                a@,
                b@,
            ]);
        }
        i = i + 1;
    }
    assert(crate::text::strings_view(roots@).take(i as int) =~= crate::text::strings_view(roots@));
    out
}

pub open spec fn amd_common_paths(roots: Seq<Seq<char>>) -> Seq<Seq<char>>
    decreases roots.len(),
{
    if roots.len() == 0 {
        Seq::empty()
    } else {
        let r = roots.last();
        amd_common_paths(roots.drop_last()) + seq![
            join_path(
                join_path(join_path(join_path(r, "AMD"@), "CNext"@), "CNext"@),
                "RadeonSoftware.exe"@,
            ),
            join_path(join_path(join_path(r, "AMD"@), "CNext"@), "RadeonSoftware.exe"@),
        ]
    }
}

/// The usual places of the AMD Adrenalin program below each root, in order.
pub fn common_amd_exe_paths(roots: &[String]) -> (res: Vec<String>)
    ensures
        crate::text::strings_view(res@) == amd_common_paths(crate::text::strings_view(roots@)),
{
    let mut out: Vec<String> = Vec::new();
    let mut i: usize = 0;
    while i < roots.len()
        invariant
            i <= roots@.len(),
            crate::text::strings_view(out@) == amd_common_paths(
                crate::text::strings_view(roots@).take(i as int),
            ),
        decreases roots@.len() - i,
    {
        let r = roots[i].as_str();
        let c = join_path_str(r, "AMD");
        let c = join_path_str(c.as_str(), "CNext");
        let a = join_path_str(c.as_str(), "CNext");
        let a = join_path_str(a.as_str(), "RadeonSoftware.exe");
        let b = join_path_str(c.as_str(), "RadeonSoftware.exe");
        let ghost before = out@;
        out.push(a);
        out.push(b);
        proof {
            let rs = crate::text::strings_view(roots@);
            assert(rs.take(i + 1).drop_last() =~= rs.take(i as int));
            assert(rs.take(i + 1).last() == roots@[i as int]@);
            assert(crate::text::strings_view(out@) =~= crate::text::strings_view(before) + seq![
                a@,
                b@,
            ]);
        }
        i = i + 1;
    }
    assert(crate::text::strings_view(roots@).take(i as int) =~= crate::text::strings_view(roots@));
    out
}

// ---------------------------------------------------------------------------
// Uninstalling
// ---------------------------------------------------------------------------
/// How a program is uninstalled: WeGame and AMD Adrenalin through their
/// registered uninstallers, everything else by removing its directory.
#[derive(PartialEq, Eq, Structural, Debug)]
pub enum UninstallRoute {
    WeGame,
    AmdAdrenalin,
    Portable,
}

pub open spec fn uninstall_route_spec(id: Seq<char>) -> UninstallRoute {
    if id == "wegame"@ {
        UninstallRoute::WeGame
    } else if id == "amd-adrenalin"@ {
        UninstallRoute::AmdAdrenalin
    } else {
        UninstallRoute::Portable
    }
}

pub fn uninstall_route(id: &str) -> (res: UninstallRoute)
    ensures
        res == uninstall_route_spec(id@),
{
    if str_eq(id, "wegame") {
        UninstallRoute::WeGame
    } else if str_eq(id, "amd-adrenalin") {
        UninstallRoute::AmdAdrenalin
    } else {
        UninstallRoute::Portable
    }
}

/// The registered uninstall command of WeGame: the normal one if present,
/// else the quiet one, trimmed; a blank command counts as none.
pub open spec fn wegame_command_spec(uninstall: Option<Seq<char>>, quiet: Option<Seq<char>>) -> Option<
    Seq<char>,
> {
    let c = if uninstall.is_some() {
        uninstall
    } else {
        quiet
    };
    match c {
        Some(s) => if trim(s).len() > 0 {
            Some(trim(s))
        } else {
            None
        },
        None => None,
    }
}

/// The next step of uninstalling WeGame.
pub enum WegameUninstall {
    /// Run the registered uninstall command.
    Launch(String),
    /// Remove the copy kept in the install directory.
    RemoveDir(String),
}

/// Uninstalling WeGame: through its registry entry when there is one, else
/// by removing the copy in `work_dir` when that exists.
pub fn wegame_uninstall_step(entry: Option<&UninstallEntry>, work_dir: &str, work_dir_exists: bool) -> (res:
    Result<WegameUninstall, String>)
    ensures
        match entry {
            Some(e) => match wegame_command_spec(
                opt_string_view(e.uninstall_string),
                opt_string_view(e.quiet_uninstall_string),
            ) {
                Some(c) => res matches Ok(WegameUninstall::Launch(x)) && x@ == c,
                None => res matches Err(m) && m@ == "找到了 WeGame，但注册表里没有卸载命令"@,
            },
            None => if work_dir_exists {
                res matches Ok(WegameUninstall::RemoveDir(d)) && d@ == work_dir@
            } else {
                res matches Err(m) && m@ == "未找到 WeGame 卸载信息"@
            },
        },
{
    match entry {
        Some(e) => {
            let chosen = match &e.uninstall_string {
                Some(u) => Some(u),
                None => match &e.quiet_uninstall_string {
                    Some(q) => Some(q),
                    None => None,
                },
            };
            match chosen {
                Some(c) => {
                    let t = crate::text::trim_string(c.as_str());
                    if t.as_str().unicode_len() > 0 {
                        Ok(WegameUninstall::Launch(t))
                    } else {
                        Err(String::from_str("找到了 WeGame，但注册表里没有卸载命令"))
                    }
                },
                None => Err(String::from_str("找到了 WeGame，但注册表里没有卸载命令")),
            }
        },
        None => {
            if work_dir_exists {
                Ok(WegameUninstall::RemoveDir(String::from_str(work_dir)))
            } else {
                Err(String::from_str("未找到 WeGame 卸载信息"))
            }
        },
    }
}

pub open spec fn wegame_uninstall_message(step: WegameUninstall) -> Seq<char> {
    match step {
        WegameUninstall::Launch(_) => "已启动 WeGame 卸载程序；如果出现 UAC，请手动允许"@,
        WegameUninstall::RemoveDir(d) => "已删除软件管家内的 WeGame 目录: "@ + d@,
    }
}

/// The report after a WeGame uninstall step has been carried out.
pub fn wegame_uninstall_result(step: &WegameUninstall) -> (res: InstallResult)
    ensures
        res.id@ == "wegame"@,
        res.success,
        res.message@ == wegame_uninstall_message(*step),
        res.shortcut_path.is_none(),
        res.package_path.is_none(),
        !res.used_cache,
{
    let message = match step {
        WegameUninstall::Launch(_) => String::from_str("已启动 WeGame 卸载程序；如果出现 UAC，请手动允许"),
        WegameUninstall::RemoveDir(d) => concat2("已删除软件管家内的 WeGame 目录: ", d.as_str()),
    };
    InstallResult {
        id: String::from_str("wegame"),
        success: true,
        message,
        shortcut_path: None,
        package_path: None,
        used_cache: false,
    }
}

/// The registered uninstall command of AMD Adrenalin: the normal one if
/// present, else the quiet one.
pub fn amd_uninstall_command(entry: Option<&UninstallEntry>) -> (res: Result<String, String>)
    ensures
        match entry {
            Some(e) => match e.uninstall_string {
                Some(u) => res == Ok::<String, String>(u),
                None => match e.quiet_uninstall_string {
                    Some(q) => res == Ok::<String, String>(q),
                    None => res matches Err(m) && m@ == "AMD 卸载项没有卸载命令"@,
                },
            },
            None => res matches Err(m) && m@ == "未找到 AMD Adrenalin 卸载信息"@,
        },
{
    match entry {
        Some(e) => match &e.uninstall_string {
            Some(u) => Ok(u.clone()),
            None => match &e.quiet_uninstall_string {
                Some(q) => Ok(q.clone()),
                None => Err(String::from_str("AMD 卸载项没有卸载命令")),
            },
        },
        None => Err(String::from_str("未找到 AMD Adrenalin 卸载信息")),
    }
}

/// The report after the AMD Adrenalin uninstaller was started.
pub fn amd_uninstall_result() -> (res: InstallResult)
    ensures
        res.id@ == "amd-adrenalin"@,
        res.success,
        res.message@ == "已启动 AMD Adrenalin 卸载程序"@,
        res.shortcut_path.is_none(),
        res.package_path.is_none(),
        !res.used_cache,
{
    InstallResult {
        id: String::from_str("amd-adrenalin"),
        success: true,
        message: String::from_str("已启动 AMD Adrenalin 卸载程序"),
        shortcut_path: None,
        package_path: None,
        used_cache: false,
    }
}

/// The report after a program's directory and shortcut were removed.
pub fn uninstalled_result(id: String, work_dir: &str) -> (res: InstallResult)
    ensures
        res.id == id,
        res.success,
        res.message@ == "已卸载: "@ + work_dir@,
        res.shortcut_path.is_none(),
        res.package_path.is_none(),
        !res.used_cache,
{
    InstallResult {
        id,
        success: true,
        message: concat2("已卸载: ", work_dir),
        shortcut_path: None,
        package_path: None,
        used_cache: false,
    }
}

// ---------------------------------------------------------------------------
// Starting an uninstall command
// ---------------------------------------------------------------------------
/// An uninstall command as it is run: trimmed, and refused when blank.
pub fn uninstall_command_text(command: &str) -> (res: Result<String, String>)
    ensures
        if trim(command@).len() > 0 {
            res matches Ok(c) && c@ == trim(command@)
        } else {
            res matches Err(e) && e@ == "卸载命令为空"@
        },
{
    let t = crate::text::trim_string(command);
    if t.as_str().unicode_len() == 0 {
        Err(String::from_str("卸载命令为空"))
    } else {
        Ok(t)
    }
}

/// The program of a split command line: its first part, unless blank.
pub open spec fn uninstall_program_spec(parts: Seq<Seq<char>>) -> Option<Seq<char>> {
    if parts.len() > 0 && trim(parts[0]).len() > 0 {
        Some(parts[0])
    } else {
        None
    }
}

pub fn uninstall_program(parts: &[String]) -> (res: Result<String, String>)
    ensures
        match uninstall_program_spec(crate::text::strings_view(parts@)) {
            Some(p) => res matches Ok(x) && x@ == p,
            None => res matches Err(e) && e@ == "卸载命令格式无效"@,
        },
{
    if parts.len() > 0 {
        assert(crate::text::strings_view(parts@)[0] == parts@[0]@);
        if !crate::text::is_blank(parts[0].as_str()) {
            return Ok(parts[0].clone());
        }
    }
    Err(String::from_str("卸载命令格式无效"))
}

/// The JSON literals of the arguments, separated by `, `.
pub open spec fn quoted_list(args: Seq<Seq<char>>) -> Seq<char>
    decreases args.len(),
{
    if args.len() == 0 {
        Seq::empty()
    } else if args.len() == 1 {
        json_string_literal(args[0])
    } else {
        quoted_list(args.drop_last()) + ", "@ + json_string_literal(args.last())
    }
}

/// The PowerShell command that starts the uninstaller elevated (through
/// UAC), passing its arguments along.
pub open spec fn elevated_script_spec(parts: Seq<Seq<char>>) -> Seq<char> {
    let file = json_string_literal(parts[0]);
    if parts.len() > 1 {
        "$file = "@ + file + "; $argv = @("@ + quoted_list(parts.skip(1))
            + "); Start-Process -FilePath $file -ArgumentList $argv -Verb RunAs -WindowStyle Normal"@
    } else {
        "$file = "@ + file + "; Start-Process -FilePath $file -Verb RunAs -WindowStyle Normal"@
    }
}

fn quoted_args(parts: &[String]) -> (res: Result<Vec<char>, String>)
    requires
        parts@.len() > 1,
    ensures
        res matches Ok(v) && v@ == quoted_list(crate::text::strings_view(parts@).skip(1)),
{
    let ghost sv = crate::text::strings_view(parts@);
    let mut out: Vec<char> = Vec::new();
    let mut i: usize = 1;
    while i < parts.len()
        invariant
            1 <= i <= parts@.len(),
            sv == crate::text::strings_view(parts@),
            out@ == quoted_list(sv.subrange(1, i as int)),
        decreases parts@.len() - i,
    {
        let q = json_quote(parts[i].as_str());
        match q {
            Ok(text) => {
                assert(sv.subrange(1, i + 1).drop_last() =~= sv.subrange(1, i as int));
                assert(sv.subrange(1, i + 1).last() == parts@[i as int]@);
                if i > 1 {
                    push_str(&mut out, ", ");
                }
                push_str(&mut out, text.as_str());
                proof {
                    if i == 1 {
                        assert(out@ =~= json_string_literal(parts@[1]@));
                    }
                }
            },
            Err(e) => {
                return Err(e);
            },
        }
        i = i + 1;
    }
    assert(sv.subrange(1, i as int) =~= sv.skip(1));
    Ok(out)
}

/// The elevated uninstall command.
pub fn elevated_uninstall_script(parts: &[String]) -> (res: Result<String, String>)
    requires
        parts@.len() >= 1,
    ensures
        res matches Ok(s) && s@ == elevated_script_spec(crate::text::strings_view(parts@)),
{
    assert(crate::text::strings_view(parts@)[0] == parts@[0]@);
    let file = match json_quote(parts[0].as_str()) {
        Ok(f) => f,
        Err(e) => {
            return Err(e);
        },
    };
    let mut v = chars_of("$file = ");
    push_str(&mut v, file.as_str());
    if parts.len() > 1 {
        let args = match quoted_args(parts) {
            Ok(a) => a,
            Err(e) => {
                return Err(e);
            },
        };
        push_str(&mut v, "; $argv = @(");
        push_all(&mut v, args.as_slice());
        push_str(
            &mut v,
            "); Start-Process -FilePath $file -ArgumentList $argv -Verb RunAs -WindowStyle Normal",
        );
    } else {
        push_str(&mut v, "; Start-Process -FilePath $file -Verb RunAs -WindowStyle Normal");
    }
    Ok(string_from_chars(v.as_slice()))
}

/// How an uninstall command is started.
pub enum UninstallLaunch {
    /// Already elevated: run the program with its arguments.
    Direct { program: String, args: Vec<String> },
    /// Otherwise: run this PowerShell command, which asks for elevation.
    Elevated { script: String },
}

/// Decides how to start a split uninstall command line, given whether its
/// program exists and whether this process runs as administrator.
pub fn uninstall_launch(parts: &[String], program_exists: bool, is_admin: bool) -> (res: Result<
    UninstallLaunch,
    String,
>)
    ensures
        match uninstall_program_spec(crate::text::strings_view(parts@)) {
            None => res matches Err(e) && e@ == "卸载命令格式无效"@,
            Some(p) => if !program_exists {
                res matches Err(e) && e@ == "卸载程序不存在: "@ + p
            } else if is_admin {
                res matches Ok(UninstallLaunch::Direct { program, args }) && program@ == p
                    && crate::text::strings_view(args@) == crate::text::strings_view(parts@).skip(1)
            } else {
                res matches Ok(UninstallLaunch::Elevated { script }) && script@ == elevated_script_spec(
                    crate::text::strings_view(parts@),
                )
            },
        },
{
    let program = match uninstall_program(parts) {
        Ok(p) => p,
        Err(e) => {
            return Err(e);
        },
    };
    if !program_exists {
        return Err(concat2("卸载程序不存在: ", program.as_str()));
    }
    if is_admin {
        let mut args: Vec<String> = Vec::new();
        let mut i: usize = 1;
        while i < parts.len()
            invariant
                1 <= i <= parts@.len(),
                crate::text::strings_view(args@) == crate::text::strings_view(parts@).subrange(
                    1,
                    i as int,
                ),
            decreases parts@.len() - i,
        {
            let ghost before = args@;
            args.push(parts[i].clone());
            assert(crate::text::strings_view(args@) =~= crate::text::strings_view(before).push(
                parts@[i as int]@,
            ));
            assert(crate::text::strings_view(parts@).subrange(1, i + 1) =~= crate::text::strings_view(
                parts@,
            ).subrange(1, i as int).push(parts@[i as int]@));
            i = i + 1;
        }
        assert(crate::text::strings_view(parts@).subrange(1, i as int) =~= crate::text::strings_view(
            parts@,
        ).skip(1));
        return Ok(UninstallLaunch::Direct { program, args });
    }
    match elevated_uninstall_script(parts) {
        Ok(script) => Ok(UninstallLaunch::Elevated { script }),
        Err(e) => Err(e),
    }
}

} // verus!
