//! Install-path settings and the package cache layout.
//!
//! Paths are Windows paths held as strings: `\` is the separator written by
//! [`join_path`], and both `/` and `\` are read as separators.

use vstd::prelude::*;

use crate::text::{
    chars_of, is_ascii_lower, is_ascii_upper, is_control_char, is_control_exec, push_all, push_str,
    slice_chars, split_exec, split_on, string_from_chars, trim, trim_by, trim_chars, trim_string,
    trim_end_by, trim_start_by, in_set, views, CharSet,
};

verus! {

/// The stored application settings (`config.json`).
pub struct AppConfig {
    pub install_base: Option<String>,
}

pub struct InstallPathSettings {
    pub default_base: String,
    pub current_base: String,
}

pub struct AppInstallPaths {
    pub install_dir: String,
    pub download_file: String,
    pub package_file: String,
    pub shortcut: String,
}

pub struct PackageCacheInfo {
    pub cached: bool,
    pub path: String,
    pub size: u64,
}

impl AppConfig {
    pub fn new() -> (res: AppConfig)
        ensures
            res.install_base.is_none(),
    {
        AppConfig { install_base: None }
    }
}

// ---------------------------------------------------------------------------
// Path model
// ---------------------------------------------------------------------------
pub open spec fn is_separator(c: char) -> bool {
    c == '/' || c == '\\'
}

/// The index of the first separator at or after `from`, or the length when
/// there is none.
pub open spec fn next_separator(s: Seq<char>, from: int) -> int
    decreases s.len() - from,
{
    if from >= s.len() {
        s.len() as int
    } else if is_separator(s[from]) {
        from
    } else {
        next_separator(s, from + 1)
    }
}

/// The length of a path's prefix: a UNC share (`\\server\share`, either
/// separator) or a drive (`C:`); 0 when it has none.
///
/// Verbatim (`\\?\`) and device (`\\.\`) prefixes are read as UNC shares
/// whose server is `?` or `.`.
pub open spec fn prefix_len(s: Seq<char>) -> int {
    if s.len() >= 2 && is_separator(s[0]) && is_separator(s[1]) {
        let a = next_separator(s, 2);
        if a == 2 || a >= s.len() {
            0
        } else {
            let b = next_separator(s, a + 1);
            if b == a + 1 {
                0
            } else {
                b
            }
        }
    } else if s.len() >= 2 && is_ascii_alpha(s[0]) && s[1] == ':' {
        2
    } else {
        0
    }
}

/// `PathBuf::push` with Windows rules: a segment with a prefix replaces the
/// base; one that starts at a root keeps only the base's prefix; otherwise the
/// segment is appended after a `\\`, unless the base is empty, already ends in
/// a separator, or is a bare drive (`C:`).
pub open spec fn join_path(base: Seq<char>, seg: Seq<char>) -> Seq<char> {
    if prefix_len(seg) > 0 {
        seg
    } else if seg.len() > 0 && is_separator(seg[0]) {
        base.take(prefix_len(base)) + seg
    } else if base.len() == 0 || is_separator(base.last()) || (base.len() == 2 && prefix_len(base)
        == 2) {
        base + seg
    } else {
        base + seq!['\\'] + seg
    }
}

fn is_separator_exec(c: char) -> (res: bool)
    ensures
        res == is_separator(c),
{
    c == '/' || c == '\\'
}

fn next_separator_exec(s: &[char], from: usize) -> (res: usize)
    requires
        from <= s@.len(),
    ensures
        res == next_separator(s@, from as int),
        from <= res <= s@.len(),
{
    let mut i: usize = from;
    while i < s.len() && !is_separator_exec(s[i])
        invariant
            from <= i <= s@.len(),
            next_separator(s@, from as int) == next_separator(s@, i as int),
        decreases s@.len() - i,
    {
        i = i + 1;
    }
    i
}

fn prefix_len_exec(s: &[char]) -> (res: usize)
    ensures
        res == prefix_len(s@),
        res <= s@.len(),
{
    if s.len() >= 2 && is_separator_exec(s[0]) && is_separator_exec(s[1]) {
        let a = next_separator_exec(s, 2);
        if a == 2 || a >= s.len() {
            0
        } else {
            let b = next_separator_exec(s, a + 1);
            if b == a + 1 {
                0
            } else {
                b
            }
        }
    } else if s.len() >= 2 && (('A' <= s[0] && s[0] <= 'Z') || ('a' <= s[0] && s[0] <= 'z'))
        && s[1] == ':' {
        2
    } else {
        0
    }
}

pub fn join_path_chars(base: &[char], seg: &[char]) -> (res: Vec<char>)
    ensures
        res@ == join_path(base@, seg@),
{
    if prefix_len_exec(seg) > 0 {
        let out = slice_chars(seg, 0, seg.len());
        assert(seg@.subrange(0, seg@.len() as int) =~= seg@);
        return out;
    }
    if seg.len() > 0 && is_separator_exec(seg[0]) {
        let bp = prefix_len_exec(base);
        let mut out = slice_chars(base, 0, bp);
        assert(base@.subrange(0, bp as int) =~= base@.take(bp as int));
        push_all(&mut out, seg);
        return out;
    }
    let mut out = slice_chars(base, 0, base.len());
    assert(base@.subrange(0, base@.len() as int) =~= base@);
    if base.len() > 0 && !is_separator_exec(base[base.len() - 1]) && !(base.len() == 2
        && prefix_len_exec(base) == 2) {
        out.push('\\');
    }
    push_all(&mut out, seg);
    out
}

/// `Path::join` of two path strings, rendered as a string.
pub fn join_path_str(base: &str, seg: &str) -> (res: String)
    ensures
        res@ == join_path(base@, seg@),
{
    let b = chars_of(base);
    let s = chars_of(seg);
    let j = join_path_chars(b.as_slice(), s.as_slice());
    string_from_chars(j.as_slice())
}

pub open spec fn is_ascii_alpha(c: char) -> bool {
    is_ascii_upper(c) || is_ascii_lower(c)
}

/// A component that names something: not empty and not `.`.
pub open spec fn is_named_component(seg: Seq<char>) -> bool {
    seg.len() > 0 && seg != seq!['.']
}

/// The named components of a path after its prefix, in order (`..` included).
pub open spec fn path_components(s: Seq<char>) -> Seq<Seq<char>> {
    split_on(s.skip(prefix_len(s)), CharSet::PathSeparator).filter(|seg: Seq<char>| is_named_component(seg))
}

/// `Path::file_name`: the last component, unless there is none or it is `..`.
pub open spec fn path_file_name(s: Seq<char>) -> Option<Seq<char>> {
    let cs = path_components(s);
    if cs.len() == 0 || cs.last() == seq!['.', '.'] {
        None
    } else {
        Some(cs.last())
    }
}

fn is_named_component_exec(seg: &[char]) -> (res: bool)
    ensures
        res == is_named_component(seg@),
{
    if seg.len() == 0 {
        return false;
    }
    if seg.len() == 1 && seg[0] == '.' {
        assert(seg@ =~= seq!['.']);
        return false;
    }
    if seg.len() == 1 {
        assert(seg@[0] != seq!['.'][0]);
    }
    true
}

/// The file name of a path string, as `Path::file_name` gives it.
pub fn path_file_name_chars(s: &[char]) -> (res: Option<Vec<char>>)
    ensures
        match res {
            Some(v) => path_file_name(s@) == Some(v@),
            None => path_file_name(s@).is_none(),
        },
{
    let start = prefix_len_exec(s);
    let rest = slice_chars(s, start, s.len());
    assert(rest@ =~= s@.skip(prefix_len(s@)));
    let parts = split_exec(rest.as_slice(), CharSet::PathSeparator);
    let ghost pred = |seg: Seq<char>| is_named_component(seg);
    let mut last: Option<usize> = None;
    let mut i: usize = 0;
    reveal(Seq::filter);
    assert(views(parts@).take(0).filter(pred) =~= Seq::<Seq<char>>::empty());
    while i < parts.len()
        invariant
            i <= parts@.len(),
            views(parts@) == split_on(rest@, CharSet::PathSeparator),
            pred == (|seg: Seq<char>| is_named_component(seg)),
            match last {
                Some(k) => k < i && views(parts@).take(i as int).filter(pred).len() > 0
                    && views(parts@).take(i as int).filter(pred).last() == parts@[k as int]@,
                None => views(parts@).take(i as int).filter(pred).len() == 0,
            },
        decreases parts@.len() - i,
    {
        reveal(Seq::filter);
        assert(views(parts@).take(i + 1).drop_last() =~= views(parts@).take(i as int));
        assert(views(parts@).take(i + 1).last() == parts@[i as int]@);
        if is_named_component_exec(parts[i].as_slice()) {
            last = Some(i);
        }
        i = i + 1;
    }
    assert(views(parts@).take(i as int) =~= views(parts@));
    match last {
        None => None,
        Some(k) => {
            let comp = &parts[k];
            let dotdot = comp.len() == 2 && comp[0] == '.' && comp[1] == '.';
            if dotdot {
                assert(comp@ =~= seq!['.', '.']);
                None
            } else {
                proof {
                    if comp@.len() == 2 {
                        assert(comp@[0] != seq!['.', '.'][0] || comp@[1] != seq!['.', '.'][1]);
                    }
                }
                Some(slice_chars(comp.as_slice(), 0, comp.len()))
            }
        },
    }
}

// ---------------------------------------------------------------------------
// Safe path segments
// ---------------------------------------------------------------------------
/// Characters that cannot appear in a Windows file name.
pub open spec fn is_reserved_path_char(c: char) -> bool {
    c == '<' || c == '>' || c == ':' || c == '"' || c == '/' || c == '\\' || c == '|' || c == '?'
        || c == '*' || is_control_char(c)
}

pub open spec fn sanitize_char(c: char) -> char {
    if is_reserved_path_char(c) {
        '_'
    } else {
        c
    }
}

/// A name made safe for one path segment: trimmed, reserved and control
/// characters replaced by `_`, leading and trailing dots and spaces removed,
/// and `unknown` when nothing is left.
pub open spec fn safe_segment(value: Seq<char>) -> Seq<char> {
    let cleaned = trim_by(trim(value).map_values(|c: char| sanitize_char(c)), CharSet::DotOrSpace);
    if cleaned.len() == 0 {
        "unknown"@
    } else {
        cleaned
    }
}

fn sanitize_char_exec(c: char) -> (res: char)
    ensures
        res == sanitize_char(c),
{
    if c == '<' || c == '>' || c == ':' || c == '"' || c == '/' || c == '\\' || c == '|' || c
        == '?' || c == '*' || is_control_exec(c) {
        '_'
    } else {
        c
    }
}

fn safe_segment_chars(value: &[char]) -> (res: Vec<char>)
    ensures
        res@ == safe_segment(value@),
{
    let t = trim_chars(value, CharSet::WhiteSpace);
    let mut mapped: Vec<char> = Vec::new();
    let mut i: usize = 0;
    while i < t.len()
        invariant
            i <= t@.len(),
            mapped@ == t@.take(i as int).map_values(|c: char| sanitize_char(c)),
        decreases t@.len() - i,
    {
        let c = sanitize_char_exec(t[i]);
        mapped.push(c);
        i = i + 1;
        assert(t@.take(i as int).map_values(|c: char| sanitize_char(c)) =~= t@.take(
            i - 1 as int,
        ).map_values(|c: char| sanitize_char(c)).push(c));
    }
    assert(t@.take(i as int) =~= t@);
    let cleaned = trim_chars(mapped.as_slice(), CharSet::DotOrSpace);
    if cleaned.len() == 0 {
        chars_of("unknown")
    } else {
        cleaned
    }
}

/// Makes a name safe to use as one path segment.
pub fn safe_path_segment(value: &str) -> (res: String)
    ensures
        res@ == safe_segment(value@),
{
    let v = chars_of(value);
    let r = safe_segment_chars(v.as_slice());
    string_from_chars(r.as_slice())
}

/// The file name under which a download is cached: the last component of
/// `file_name` made safe, or `package.bin` when it has none.
pub open spec fn safe_file_name_spec(file_name: Seq<char>) -> Seq<char> {
    match path_file_name(file_name) {
        Some(name) => safe_segment(name),
        None => "package.bin"@,
    }
}

pub fn safe_file_name(file_name: &str) -> (res: String)
    ensures
        res@ == safe_file_name_spec(file_name@),
{
    let v = chars_of(file_name);
    match path_file_name_chars(v.as_slice()) {
        Some(name) => {
            let r = safe_segment_chars(name.as_slice());
            string_from_chars(r.as_slice())
        },
        None => String::from_str("package.bin"),
    }
}

/// No character of `s` is reserved in a file name.
pub open spec fn has_no_reserved(s: Seq<char>) -> bool {
    forall|i: int| 0 <= i < s.len() ==> !is_reserved_path_char(#[trigger] s[i])
}

proof fn lemma_trim_start_no_reserved(s: Seq<char>, set: CharSet)
    requires
        has_no_reserved(s),
    ensures
        has_no_reserved(trim_start_by(s, set)),
    decreases s.len(),
{
    if s.len() > 0 && in_set(set, s[0]) {
        assert forall|i: int| 0 <= i < s.drop_first().len() implies !is_reserved_path_char(
            #[trigger] s.drop_first()[i],
        ) by {
            assert(s.drop_first()[i] == s[i + 1]);
        }
        lemma_trim_start_no_reserved(s.drop_first(), set);
    }
}

proof fn lemma_trim_end_no_reserved(s: Seq<char>, set: CharSet)
    requires
        has_no_reserved(s),
    ensures
        has_no_reserved(trim_end_by(s, set)),
    decreases s.len(),
{
    if s.len() > 0 && in_set(set, s.last()) {
        assert forall|i: int| 0 <= i < s.drop_last().len() implies !is_reserved_path_char(
            #[trigger] s.drop_last()[i],
        ) by {
            assert(s.drop_last()[i] == s[i]);
        }
        lemma_trim_end_no_reserved(s.drop_last(), set);
    }
}

/// A cached file's name is never empty and holds no separator, drive colon or
/// other reserved character.
pub proof fn lemma_safe_file_name_plain(file_name: Seq<char>)
    ensures
        safe_file_name_spec(file_name).len() > 0,
        has_no_reserved(safe_file_name_spec(file_name)),
{
    reveal_strlit("unknown");
    reveal_strlit("package.bin");
    match path_file_name(file_name) {
        Some(name) => {
            let mapped = trim(name).map_values(|c: char| sanitize_char(c));
            assert forall|i: int| 0 <= i < mapped.len() implies !is_reserved_path_char(
                #[trigger] mapped[i],
            ) by {
                assert(mapped[i] == sanitize_char(trim(name)[i]));
            }
            lemma_trim_start_no_reserved(mapped, CharSet::DotOrSpace);
            lemma_trim_end_no_reserved(trim_start_by(mapped, CharSet::DotOrSpace), CharSet::DotOrSpace);
        },
        None => {},
    }
}

// ---------------------------------------------------------------------------
// Cache and settings paths
// ---------------------------------------------------------------------------
/// `{data}\packages\{id}\{version}`, each name made safe.
pub open spec fn package_cache_dir_spec(data_dir: Seq<char>, id: Seq<char>, version: Seq<char>) -> Seq<
    char,
> {
    join_path(join_path(join_path(data_dir, "packages"@), safe_segment(id)), safe_segment(version))
}

/// The directory that caches the packages of one version of one program.
pub fn package_cache_dir(data_dir: &str, id: &str, version: &str) -> (res: String)
    ensures
        res@ == package_cache_dir_spec(data_dir@, id@, version@),
{
    let p = join_path_str(data_dir, "packages");
    let sid = safe_path_segment(id);
    let p = join_path_str(p.as_str(), sid.as_str());
    let sv = safe_path_segment(version);
    join_path_str(p.as_str(), sv.as_str())
}

/// Where a downloaded package is cached.
pub fn package_cache_path(data_dir: &str, id: &str, version: &str, file_name: &str) -> (res: String)
    ensures
        res@ == join_path(
            package_cache_dir_spec(data_dir@, id@, version@),
            safe_file_name_spec(file_name@),
        ),
{
    let dir = package_cache_dir(data_dir, id, version);
    let name = safe_file_name(file_name);
    join_path_str(dir.as_str(), name.as_str())
}

/// `{data}\config.json`.
pub fn config_file(data_dir: &str) -> (res: String)
    ensures
        res@ == join_path(data_dir@, "config.json"@),
{
    join_path_str(data_dir, "config.json")
}

// ---------------------------------------------------------------------------
// Install base
// ---------------------------------------------------------------------------
/// The install base in effect: the configured one when it is set and not
/// empty, the default otherwise.
pub open spec fn install_base_spec(configured: Option<Seq<char>>, default_base: Seq<char>) -> Seq<
    char,
> {
    match configured {
        Some(p) => if p.len() > 0 {
            p
        } else {
            default_base
        },
        None => default_base,
    }
}

/// The default install base: `{local data}\software-manager\apps`, or
/// `{portable root}\apps` when there is no local data directory.
pub open spec fn default_base_spec(local_data: Option<Seq<char>>, portable_root: Seq<char>) -> Seq<char> {
    match local_data {
        Some(d) => join_path(join_path(d, "software-manager"@), "apps"@),
        None => join_path(portable_root, "apps"@),
    }
}

pub fn default_install_base_in(local_data: Option<String>, portable_root: &str) -> (res: String)
    ensures
        res@ == default_base_spec(opt_view(local_data), portable_root@),
{
    match local_data {
        Some(d) => {
            let b = join_path_str(d.as_str(), "software-manager");
            join_path_str(b.as_str(), "apps")
        },
        None => join_path_str(portable_root, "apps"),
    }
}

/// Calls `dirs::data_local_dir`, the path taken lossily as text. What it
/// returns depends on the user's environment, so nothing is stated of it.
#[verifier::external_body]
fn local_data_dir() -> (res: Option<String>) {
    dirs::data_local_dir().map(|p| p.to_string_lossy().into_owned())
}

/// The default install base on this machine (the directory is not created
/// here).
pub fn default_install_base(portable_root: &str) -> (res: String)
    ensures
        exists|local: Option<Seq<char>>| res@ == default_base_spec(local, portable_root@),
{
    let local = local_data_dir();
    let ghost lg = opt_view(local);
    let r = default_install_base_in(local, portable_root);
    assert(r@ == default_base_spec(lg, portable_root@));
    r
}

pub open spec fn opt_view(o: Option<String>) -> Option<Seq<char>> {
    match o {
        Some(s) => Some(s@),
        None => None,
    }
}

pub fn get_install_base(config: &AppConfig, default_base: &str) -> (res: String)
    ensures
        res@ == install_base_spec(opt_view(config.install_base), default_base@),
{
    match &config.install_base {
        Some(p) => {
            if p.as_str().unicode_len() > 0 {
                p.clone()
            } else {
                String::from_str(default_base)
            }
        },
        None => String::from_str(default_base),
    }
}

/// Stores a new install base; blank input is refused and leaves `config`
/// as it was.
pub fn set_install_base(config: &mut AppConfig, path: &str) -> (res: Result<(), String>)
    ensures
        res.is_ok() == (trim(path@).len() > 0),
        res.is_ok() ==> opt_view(final(config).install_base) == Some(trim(path@)),
        res.is_err() ==> *final(config) == *old(config),
        res matches Err(e) ==> e@ == "安装路径不能为空"@,
{
    let trimmed = trim_string(path);
    if trimmed.as_str().unicode_len() == 0 {
        return Err(String::from_str("安装路径不能为空"));
    }
    config.install_base = Some(trimmed);
    Ok(())
}

/// Forgets the configured install base and returns the default one.
pub fn reset_install_base(config: &mut AppConfig, default_base: &str) -> (res: String)
    ensures
        final(config).install_base.is_none(),
        res@ == default_base@,
{
    config.install_base = None;
    String::from_str(default_base)
}

pub fn get_install_path_settings(config: &AppConfig, default_base: &str) -> (res:
    InstallPathSettings)
    ensures
        res.default_base@ == default_base@,
        res.current_base@ == install_base_spec(opt_view(config.install_base), default_base@),
{
    InstallPathSettings {
        default_base: String::from_str(default_base),
        current_base: get_install_base(config, default_base),
    }
}

/// Reading the install base back after storing `path` gives `path` trimmed.
pub proof fn law_install_base_read_after_write(path: Seq<char>, default_base: Seq<char>)
    requires
        trim(path).len() > 0,
    ensures
        install_base_spec(Some(trim(path)), default_base) == trim(path),
{
}

/// After a reset the install base in effect is the default one.
pub proof fn law_install_base_after_reset(default_base: Seq<char>)
    ensures
        install_base_spec(None, default_base) == default_base,
{
}

// ---------------------------------------------------------------------------
// Cached packages
// ---------------------------------------------------------------------------
/// The size of a usable cached file: it exists, is not empty, and has the
/// expected size when one is known (`expected_size > 0`).
pub open spec fn valid_cached_size(is_file: bool, size: u64, expected_size: u64) -> Option<u64> {
    if !is_file || size == 0 || (expected_size > 0 && size != expected_size) {
        None
    } else {
        Some(size)
    }
}

pub fn valid_cached_file(is_file: bool, size: u64, expected_size: u64) -> (res: Option<u64>)
    ensures
        res == valid_cached_size(is_file, size, expected_size),
{
    if !is_file {
        return None;
    }
    if size == 0 || (expected_size > 0 && size != expected_size) {
        return None;
    }
    Some(size)
}

/// Whether a cached package can be used instead of downloading it again.
pub fn is_valid_cached_package(is_file: bool, size: u64, expected_size: u64) -> (res: bool)
    ensures
        res == (is_file && size > 0 && (expected_size == 0 || size == expected_size)),
{
    if !is_file {
        return false;
    }
    size > 0 && (expected_size == 0 || size == expected_size)
}

/// The two cache checks agree: a package is reused exactly when its cache
/// entry reports a size.
pub proof fn law_cache_checks_agree(is_file: bool, size: u64, expected_size: u64)
    ensures
        valid_cached_size(is_file, size, expected_size).is_some() == (is_file && size > 0 && (
        expected_size == 0 || size == expected_size)),
{
}

pub fn package_cache_info(path: String, valid_size: Option<u64>) -> (res: PackageCacheInfo)
    ensures
        res.path == path,
        res.size == match valid_size {
            Some(s) => s,
            None => 0,
        },
        res.cached == (res.size > 0),
{
    let size = match valid_size {
        Some(s) => s,
        None => 0,
    };
    PackageCacheInfo { cached: size > 0, path, size }
}

/// The paths that installing one program touches.
pub fn app_install_paths(
    install_base: &str,
    data_dir: &str,
    desktop: Option<&str>,
    id: &str,
    display_name: &str,
    version: &str,
    file_name: &str,
) -> (res: AppInstallPaths)
    ensures
        res.install_dir@ == join_path(install_base@, id@),
        res.download_file@ == join_path(join_path(install_base@, id@), file_name@),
        res.package_file@ == join_path(
            package_cache_dir_spec(data_dir@, id@, version@),
            safe_file_name_spec(file_name@),
        ),
        res.shortcut@ == match desktop {
            Some(d) => join_path(d@, display_name@ + ".lnk"@),
            None => Seq::<char>::empty(),
        },
{
    let install_dir = join_path_str(install_base, id);
    let download_file = join_path_str(install_dir.as_str(), file_name);
    let package_file = package_cache_path(data_dir, id, version, file_name);
    let shortcut = match desktop {
        Some(d) => {
            let mut name = chars_of(display_name);
            push_str(&mut name, ".lnk");
            let name_s = string_from_chars(name.as_slice());
            join_path_str(d, name_s.as_str())
        },
        None => String::new(),
    };
    AppInstallPaths { install_dir, download_file, package_file, shortcut }
}

} // verus!
