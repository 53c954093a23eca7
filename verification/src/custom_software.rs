//! User-defined download sources ("custom software"): normalisation,
//! validation, unique ids, default silent-install profiles and icon lookup.

use vstd::prelude::*;

use crate::config::join_path;
use crate::software::{SoftwareSource, SoftwareTarget, SourceView, TargetView};
use crate::web::{
    joined_url, opt_string_view, parsed_url_scheme, url_host, url_host_of, url_joined, url_origin,
    url_origin_of, url_scheme_of,
};
use crate::config::join_path_str;
use crate::text::{
    ascii_lower, ascii_lower_char, ascii_lower_char_exec, chars_eq, chars_of, decimal,
    is_ascii_alnum, is_ascii_alnum_exec, lemma_decimal_injective, lemma_decimal_nonempty,
    push_all, push_decimal, push_str, slice_chars, string_from_chars, trim, trim_by, trim_chars,
    trim_end_by, trim_end_index, CharSet,
};

verus! {

/// A download source added by the user.
pub struct CustomSoftwareConfig {
    pub id: String,
    pub display_name: String,
    pub source_kind: String,
    pub repo: String,
    pub asset_match: String,
    pub exe_match: String,
    pub download_url: String,
    pub page_url: String,
    pub version: String,
    pub file_name: String,
    pub silent_install_args: String,
    pub icon_path: String,
}

/// The mathematical value of a [`CustomSoftwareConfig`].
pub struct ConfigView {
    pub id: Seq<char>,
    pub display_name: Seq<char>,
    pub source_kind: Seq<char>,
    pub repo: Seq<char>,
    pub asset_match: Seq<char>,
    pub exe_match: Seq<char>,
    pub download_url: Seq<char>,
    pub page_url: Seq<char>,
    pub version: Seq<char>,
    pub file_name: Seq<char>,
    pub silent_install_args: Seq<char>,
    pub icon_path: Seq<char>,
}

impl View for CustomSoftwareConfig {
    type V = ConfigView;

    open spec fn view(&self) -> ConfigView {
        ConfigView {
            id: self.id@,
            display_name: self.display_name@,
            source_kind: self.source_kind@,
            repo: self.repo@,
            asset_match: self.asset_match@,
            exe_match: self.exe_match@,
            download_url: self.download_url@,
            page_url: self.page_url@,
            version: self.version@,
            file_name: self.file_name@,
            silent_install_args: self.silent_install_args@,
            icon_path: self.icon_path@,
        }
    }
}

/// The views of a list of configurations.
pub open spec fn configs_view(list: Seq<CustomSoftwareConfig>) -> Seq<ConfigView> {
    list.map_values(|c: CustomSoftwareConfig| c@)
}

impl CustomSoftwareConfig {
    /// A field-by-field copy.
    pub fn duplicate(&self) -> (res: CustomSoftwareConfig)
        ensures
            res@ == self@,
    {
        CustomSoftwareConfig {
            id: self.id.clone(),
            display_name: self.display_name.clone(),
            source_kind: self.source_kind.clone(),
            repo: self.repo.clone(),
            asset_match: self.asset_match.clone(),
            exe_match: self.exe_match.clone(),
            download_url: self.download_url.clone(),
            page_url: self.page_url.clone(),
            version: self.version.clone(),
            file_name: self.file_name.clone(),
            silent_install_args: self.silent_install_args.clone(),
            icon_path: self.icon_path.clone(),
        }
    }
}

/// The source kind of a stored entry that does not name one.
pub fn default_source_kind() -> (res: String)
    ensures
        res@ == "github"@,
{
    String::from_str("github")
}

// ---------------------------------------------------------------------------
// Ids
// ---------------------------------------------------------------------------
/// Ids that a custom source may never take.
pub open spec fn reserved_ids() -> Seq<Seq<char>> {
    seq![
        "stranslate"@,
        "quickclipboard"@,
        "leagueakari"@,
        "wegame"@,
        "amd-adrenalin"@,
        "winget"@,
    ]
}

pub fn reserved_software_ids() -> (res: Vec<Vec<char>>)
    ensures
        crate::text::views(res@) == reserved_ids(),
{
    let mut v: Vec<Vec<char>> = Vec::new();
    v.push(chars_of("stranslate"));
    v.push(chars_of("quickclipboard"));
    v.push(chars_of("leagueakari"));
    v.push(chars_of("wegame"));
    v.push(chars_of("amd-adrenalin"));
    v.push(chars_of("winget"));
    assert(crate::text::views(v@) =~= reserved_ids());
    v
}

/// One step of the slug scan: the slug so far and whether it ends in a
/// dash that this scan wrote.
pub open spec fn slug_scan(s: Seq<char>) -> (Seq<char>, bool)
    decreases s.len(),
{
    if s.len() == 0 {
        (Seq::<char>::empty(), false)
    } else {
        let prev = slug_scan(s.drop_last());
        let c = s.last();
        if is_ascii_alnum(c) || c == '_' {
            (prev.0.push(ascii_lower_char(c)), false)
        } else if !prev.1 && prev.0.len() > 0 {
            (prev.0.push('-'), true)
        } else {
            prev
        }
    }
}

/// The id derived from a name: ASCII letters, digits and `_` kept in lower
/// case, every other run of characters after the first kept one turned into a
/// single `-`, trailing dashes dropped, and `source` when nothing is left.
pub open spec fn slug(name: Seq<char>) -> Seq<char> {
    let out = trim_end_by(slug_scan(trim(name)).0, CharSet::Dash);
    if out.len() == 0 {
        "source"@
    } else {
        out
    }
}

fn slug_chars(name: &[char]) -> (res: Vec<char>)
    ensures
        res@ == slug(name@),
{
    let t = trim_chars(name, CharSet::WhiteSpace);
    let mut out: Vec<char> = Vec::new();
    let mut last_dash = false;
    let mut i: usize = 0;
    while i < t.len()
        invariant
            i <= t@.len(),
            slug_scan(t@.take(i as int)) == (out@, last_dash),
        decreases t@.len() - i,
    {
        let ch = t[i];
        assert(t@.take(i + 1).drop_last() =~= t@.take(i as int));
        if is_ascii_alnum_exec(ch) || ch == '_' {
            let l = ascii_lower_char_exec(ch);
            out.push(l);
            last_dash = false;
        } else if !last_dash && out.len() > 0 {
            out.push('-');
            last_dash = true;
        }
        i = i + 1;
    }
    assert(t@.take(i as int) =~= t@);
    let end = trim_end_index(out.as_slice(), 0, CharSet::Dash);
    assert(out@.subrange(0, out@.len() as int) =~= out@);
    if end == 0 {
        chars_of("source")
    } else {
        slice_chars(out.as_slice(), 0, end)
    }
}

/// Turns a display name into an id.
pub fn slugify_source_id(name: &str) -> (res: String)
    ensures
        res@ == slug(name@),
{
    let n = chars_of(name);
    let s = slug_chars(n.as_slice());
    string_from_chars(s.as_slice())
}

/// Ids already taken: the reserved ones and those of the stored sources.
pub open spec fn used_ids(list: Seq<ConfigView>) -> Seq<Seq<char>> {
    reserved_ids() + list.map_values(|c: ConfigView| c.id)
}

/// The `k`-th candidate id for `base`: `base` itself, then `base-2`,
/// `base-3`, ...
pub open spec fn id_candidate(base: Seq<char>, k: nat) -> Seq<char> {
    if k <= 1 {
        base
    } else {
        base + "-"@ + decimal(k)
    }
}

/// `k` is the first candidate index that is not taken.
pub open spec fn is_first_free(base: Seq<char>, used: Seq<Seq<char>>, k: nat) -> bool {
    &&& k >= 1
    &&& !used.contains(id_candidate(base, k))
    &&& forall|j: nat| 1 <= j < k ==> used.contains(#[trigger] id_candidate(base, j))
}

/// The first candidate id for `base` that is not in `used`.
pub open spec fn unique_id(base: Seq<char>, used: Seq<Seq<char>>) -> Seq<char> {
    id_candidate(base, choose|k: nat| is_first_free(base, used, k))
}

pub proof fn lemma_candidates_distinct(base: Seq<char>, j: nat, k: nat)
    requires
        1 <= j < k,
    ensures
        id_candidate(base, j) != id_candidate(base, k),
{
    reveal_strlit("-");
    lemma_decimal_nonempty(k);
    if j == 1 {
        assert(id_candidate(base, k).len() > base.len());
    } else {
        if id_candidate(base, j) == id_candidate(base, k) {
            lemma_decimal_nonempty(j);
            let n = base.len() + 1;
            assert(id_candidate(base, j).skip(n as int) =~= decimal(j));
            assert(id_candidate(base, k).skip(n as int) =~= decimal(k));
            lemma_decimal_injective(j, k);
        }
    }
}

pub proof fn lemma_first_free_unique(base: Seq<char>, used: Seq<Seq<char>>, k: nat)
    requires
        is_first_free(base, used, k),
    ensures
        unique_id(base, used) == id_candidate(base, k),
{
    let c = choose|m: nat| is_first_free(base, used, m);
    assert(is_first_free(base, used, c));
    if c < k {
        assert(used.contains(id_candidate(base, c)));
    } else if k < c {
        assert(used.contains(id_candidate(base, k)));
    }
}

fn contains_id(used: &Vec<Vec<char>>, cand: &[char]) -> (res: bool)
    ensures
        res == crate::text::views(used@).contains(cand@),
{
    let mut i: usize = 0;
    while i < used.len()
        invariant
            i <= used@.len(),
            forall|j: int| 0 <= j < i ==> used@[j]@ != cand@,
        decreases used@.len() - i,
    {
        if chars_eq(used[i].as_slice(), cand) {
            assert(crate::text::views(used@)[i as int] == cand@);
            return true;
        }
        i = i + 1;
    }
    proof {
        if crate::text::views(used@).contains(cand@) {
            let j = choose|j: int|
                0 <= j < crate::text::views(used@).len() && crate::text::views(used@)[j] == cand@;
            assert(used@[j]@ == cand@);
        }
    }
    false
}

fn used_id_list(list: &[CustomSoftwareConfig]) -> (res: Vec<Vec<char>>)
    ensures
        crate::text::views(res@) == used_ids(configs_view(list@)),
{
    let mut used = reserved_software_ids();
    let mut i: usize = 0;
    while i < list.len()
        invariant
            i <= list@.len(),
            crate::text::views(used@) == reserved_ids() + configs_view(list@).take(
                i as int,
            ).map_values(|c: ConfigView| c.id),
        decreases list@.len() - i,
    {
        let id = chars_of(list[i].id.as_str());
        let ghost before = used@;
        used.push(id);
        assert(crate::text::views(used@) =~= crate::text::views(before).push(list@[i as int].id@));
        assert(configs_view(list@).take(i + 1).map_values(|c: ConfigView| c.id) =~= configs_view(
            list@,
        ).take(i as int).map_values(|c: ConfigView| c.id).push(list@[i as int].id@));
        i = i + 1;
    }
    assert(configs_view(list@).take(i as int) =~= configs_view(list@));
    used
}

fn id_candidate_chars(base: &[char], k: u128) -> (res: Vec<char>)
    requires
        k >= 1,
    ensures
        res@ == id_candidate(base@, k as nat),
{
    let mut out = slice_chars(base, 0, base.len());
    assert(base@.subrange(0, base@.len() as int) =~= base@);
    if k >= 2 {
        push_str(&mut out, "-");
        push_decimal(&mut out, k);
    }
    out
}

/// A new id for a source called `display_name`: its slug, or the slug with
/// the first `-2`, `-3`, ... suffix that no reserved or stored id has.
pub fn generate_unique_custom_id(display_name: &str, list: &[CustomSoftwareConfig]) -> (res: String)
    ensures
        res@ == unique_id(slug(display_name@), used_ids(configs_view(list@))),
        !used_ids(configs_view(list@)).contains(res@),
{
    let used = used_id_list(list);
    let ghost used_seq = used_ids(configs_view(list@));
    let ghost used_set = used_seq.to_set();
    let name = chars_of(display_name);
    let base = slug_chars(name.as_slice());
    let ghost b = base@;
    let n: usize = list.len();
    let mut index: u128 = 1;
    let ghost mut tried: Set<Seq<char>> = Set::empty();
    proof {
        used_seq.lemma_cardinality_of_set();
        assert(used_set.finite()) by {
            vstd::seq_lib::seq_to_set_is_finite(used_seq);
        }
    }
    loop
        invariant
            crate::text::views(used@) == used_seq,
            used_set == used_seq.to_set(),
            used_set.finite(),
            used_set.len() <= used_seq.len(),
            used_seq.len() == 6 + list@.len(),
            n == list@.len(),
            used_seq == used_ids(configs_view(list@)),
            b == slug(display_name@),
            base@ == b,
            index >= 1,
            tried.finite(),
            tried.len() == index - 1,
            tried.subset_of(used_set),
            forall|x: Seq<char>| #[trigger]
                tried.contains(x) ==> exists|j: nat| 1 <= j < index && x == id_candidate(b, j),
            forall|j: nat| 1 <= j < index ==> used_seq.contains(#[trigger] id_candidate(b, j)),
        decreases used_set.len() - tried.len(),
    {
        let cand = id_candidate_chars(base.as_slice(), index);
        if !contains_id(&used, cand.as_slice()) {
            proof {
                assert(is_first_free(b, used_seq, index as nat));
                lemma_first_free_unique(b, used_seq, index as nat);
            }
            return string_from_chars(cand.as_slice());
        }
        proof {
            let c = id_candidate(b, index as nat);
            assert(used_set.contains(c));
            if tried.contains(c) {
                let j = choose|j: nat| 1 <= j < index && c == id_candidate(b, j);
                lemma_candidates_distinct(b, j, index as nat);
            }
            vstd::set_lib::lemma_len_subset(tried, used_set);
            let t2 = tried.insert(c);
            assert(t2.len() == tried.len() + 1);
            vstd::set_lib::lemma_len_subset(t2, used_set);
            assert forall|x: Seq<char>| #[trigger] t2.contains(x) implies exists|j: nat|
                1 <= j < index + 1 && x == id_candidate(b, j) by {
                if x == c {
                    assert(x == id_candidate(b, index as nat));
                } else {
                    assert(tried.contains(x));
                }
            }
            tried = t2;
        }
        index = index + 1;
    }
}

/// `{data}\custom_software.json`.
pub fn custom_software_config_path(data_dir: &str) -> (res: String)
    ensures
        res@ == join_path(data_dir@, "custom_software.json"@),
{
    join_path_str(data_dir, "custom_software.json")
}

// ---------------------------------------------------------------------------
// Validation
// ---------------------------------------------------------------------------
pub open spec fn is_id_char(c: char) -> bool {
    is_ascii_alnum(c) || c == '-' || c == '_'
}

/// Why a source cannot be saved, or `None` when it can.
pub open spec fn validation_error(c: ConfigView) -> Option<Seq<char>> {
    if trim(c.id).len() == 0 {
        Some("ID 不能为空"@)
    } else if trim(c.display_name).len() == 0 {
        Some("显示名称不能为空"@)
    } else if !(forall|i: int| 0 <= i < c.id.len() ==> is_id_char(#[trigger] c.id[i])) {
        Some("ID 只能包含英文、数字、短横线和下划线"@)
    } else if c.source_kind == "direct"@ {
        if !("http://"@.is_prefix_of(c.download_url) || "https://"@.is_prefix_of(c.download_url)) {
            Some("直接下载地址必须以 http:// 或 https:// 开头"@)
        } else {
            None
        }
    } else if !crate::text::contains_char(c.repo, '/') {
        Some("GitHub 仓库格式应为 owner/repo"@)
    } else if trim(c.asset_match).len() == 0 {
        Some("GitHub 下载文件匹配不能为空"@)
    } else {
        None
    }
}

/// A source can be saved exactly when its id and display name are not blank,
/// its id is made of ASCII letters, digits, `-` and `_`, and: a direct source
/// has a download address starting with `http://` or `https://`; any other
/// source names a repository as `owner/repo` and a non-blank asset match.
pub proof fn law_what_validates(c: ConfigView)
    ensures
        validation_error(c).is_none() <==> {
            &&& trim(c.id).len() > 0
            &&& trim(c.display_name).len() > 0
            &&& forall|i: int|
                0 <= i < c.id.len() ==> (is_ascii_alnum(#[trigger] c.id[i]) || c.id[i] == '-'
                    || c.id[i] == '_')
            &&& c.source_kind == "direct"@ ==> ("http://"@.is_prefix_of(c.download_url)
                || "https://"@.is_prefix_of(c.download_url))
            &&& c.source_kind != "direct"@ ==> (crate::text::contains_char(c.repo, '/') && trim(
                c.asset_match,
            ).len() > 0)
        },
{
}

fn all_id_chars(id: &[char]) -> (res: bool)
    ensures
        res == forall|i: int| 0 <= i < id@.len() ==> is_id_char(#[trigger] id@[i]),
{
    let mut i: usize = 0;
    while i < id.len()
        invariant
            i <= id@.len(),
            forall|j: int| 0 <= j < i ==> is_id_char(#[trigger] id@[j]),
        decreases id@.len() - i,
    {
        let c = id[i];
        if !(is_ascii_alnum_exec(c) || c == '-' || c == '_') {
            assert(!is_id_char(id@[i as int]));
            return false;
        }
        i = i + 1;
    }
    true
}

/// Checks that a source can be saved.
pub fn validate_custom_software(config: &CustomSoftwareConfig) -> (res: Result<(), String>)
    ensures
        match res {
            Ok(()) => validation_error(config@).is_none(),
            Err(e) => validation_error(config@) == Some(e@),
        },
{
    let id = chars_of(config.id.as_str());
    if crate::text::is_blank(config.id.as_str()) {
        return Err(String::from_str("ID 不能为空"));
    }
    if crate::text::is_blank(config.display_name.as_str()) {
        return Err(String::from_str("显示名称不能为空"));
    }
    if !all_id_chars(id.as_slice()) {
        return Err(String::from_str("ID 只能包含英文、数字、短横线和下划线"));
    }
    if crate::text::str_eq(config.source_kind.as_str(), "direct") {
        let url = chars_of(config.download_url.as_str());
        if !(crate::text::starts_with_str(url.as_slice(), "http://")
            || crate::text::starts_with_str(url.as_slice(), "https://")) {
            return Err(String::from_str("直接下载地址必须以 http:// 或 https:// 开头"));
        }
    } else {
        let repo = chars_of(config.repo.as_str());
        if !crate::text::contains_char_exec(repo.as_slice(), '/') {
            return Err(String::from_str("GitHub 仓库格式应为 owner/repo"));
        }
        if crate::text::is_blank(config.asset_match.as_str()) {
            return Err(String::from_str("GitHub 下载文件匹配不能为空"));
        }
    }
    Ok(())
}

// ---------------------------------------------------------------------------
// GitHub repositories
// ---------------------------------------------------------------------------
/// `str::trim_end_matches` with a string pattern: every trailing copy of
/// `p` removed.
pub open spec fn trim_end_str(s: Seq<char>, p: Seq<char>) -> Seq<char>
    decreases s.len(),
{
    if p.len() > 0 && p.is_suffix_of(s) {
        trim_end_str(s.subrange(0, s.len() - p.len()), p)
    } else {
        s
    }
}

fn trim_end_str_chars(s: &[char], p: &str) -> (res: Vec<char>)
    ensures
        res@ == trim_end_str(s@, p@),
{
    let pc = chars_of(p);
    let mut end: usize = s.len();
    assert(s@.subrange(0, s@.len() as int) =~= s@);
    loop
        invariant
            end <= s@.len(),
            pc@ == p@,
            trim_end_str(s@, p@) == trim_end_str(s@.subrange(0, end as int), p@),
        decreases end,
    {
        let cur = slice_chars(s, 0, end);
        if pc.len() > 0 && crate::text::ends_with(cur.as_slice(), pc.as_slice()) {
            assert(s@.subrange(0, end as int).subrange(0, end - pc@.len()) =~= s@.subrange(
                0,
                end - pc@.len(),
            ));
            end = end - pc.len();
        } else {
            return cur;
        }
    }
}

/// The non-empty pieces of `s` split at `/`.
pub open spec fn slash_parts(s: Seq<char>) -> Seq<Seq<char>> {
    crate::text::split_on(s, CharSet::Slash).filter(|p: Seq<char>| p.len() > 0)
}

/// `input` with one leading GitHub address prefix removed.
pub open spec fn strip_github_prefix(t: Seq<char>) -> Seq<char> {
    if "https://github.com/"@.is_prefix_of(t) {
        t.skip(19)
    } else if "http://github.com/"@.is_prefix_of(t) {
        t.skip(18)
    } else if "github.com/"@.is_prefix_of(t) {
        t.skip(11)
    } else {
        t
    }
}

/// `owner/repo` read from a repository name or GitHub address.
pub open spec fn normalized_repo(input: Seq<char>) -> Option<Seq<char>> {
    let parts = slash_parts(strip_github_prefix(trim_end_by(trim(input), CharSet::Slash)));
    if parts.len() < 2 {
        None
    } else {
        let owner = parts[0];
        let repo = parts[1];
        if owner == "repos"@ || crate::text::contains_char(owner, ':') || crate::text::contains_char(
            repo,
            ':',
        ) {
            None
        } else {
            Some(trim_end_str(owner, ".git"@) + "/"@ + trim_end_str(repo, ".git"@))
        }
    }
}

/// The first two non-empty pieces of `s` split at `/`.
fn first_two_slash_parts(s: &[char]) -> (res: Option<(Vec<char>, Vec<char>)>)
    ensures
        match res {
            Some((a, b)) => slash_parts(s@).len() >= 2 && a@ == slash_parts(s@)[0] && b@
                == slash_parts(s@)[1],
            None => slash_parts(s@).len() < 2,
        },
{
    let parts = crate::text::split_exec(s, CharSet::Slash);
    let ghost pred = |p: Seq<char>| p.len() > 0;
    let mut first: Option<usize> = None;
    let mut i: usize = 0;
    reveal(Seq::filter);
    assert(crate::text::views(parts@).take(0).filter(pred) =~= Seq::<Seq<char>>::empty());
    while i < parts.len()
        invariant
            i <= parts@.len(),
            crate::text::views(parts@) == crate::text::split_on(s@, CharSet::Slash),
            pred == (|p: Seq<char>| p.len() > 0),
            match first {
                Some(k) => k < i && crate::text::views(parts@).take(i as int).filter(pred)
                    =~= seq![parts@[k as int]@],
                None => crate::text::views(parts@).take(i as int).filter(pred).len() == 0,
            },
        decreases parts@.len() - i,
    {
        reveal(Seq::filter);
        assert(crate::text::views(parts@).take(i + 1).drop_last() =~= crate::text::views(
            parts@,
        ).take(i as int));
        assert(crate::text::views(parts@).take(i + 1).last() == parts@[i as int]@);
        if parts[i].len() > 0 {
            match first {
                None => {
                    first = Some(i);
                },
                Some(k) => {
                    let a = slice_chars(parts[k].as_slice(), 0, parts[k].len());
                    let b = slice_chars(parts[i].as_slice(), 0, parts[i].len());
                    assert(parts@[k as int]@.subrange(0, parts@[k as int]@.len() as int)
                        =~= parts@[k as int]@);
                    assert(parts@[i as int]@.subrange(0, parts@[i as int]@.len() as int)
                        =~= parts@[i as int]@);
                    let ghost f = crate::text::views(parts@).take(i + 1).filter(pred);
                    assert(f =~= seq![parts@[k as int]@, parts@[i as int]@]);
                    proof {
                        let v = crate::text::views(parts@);
                        lemma_filter_prefix_stable(v, pred, i + 1);
                    }
                    return Some((a, b));
                },
            }
        }
        i = i + 1;
    }
    proof {
        assert(crate::text::views(parts@).take(i as int) =~= crate::text::views(parts@));
    }
    None
}

/// Filtering a longer prefix keeps what filtering a shorter one gave.
pub proof fn lemma_filter_prefix_stable(v: Seq<Seq<char>>, pred: spec_fn(Seq<char>) -> bool, n: int)
    requires
        0 <= n <= v.len(),
    ensures
        v.take(n).filter(pred).is_prefix_of(v.filter(pred)),
    decreases v.len() - n,
{
    reveal(Seq::filter);
    if n < v.len() {
        lemma_filter_prefix_stable(v, pred, n + 1);
        assert(v.take(n + 1).drop_last() =~= v.take(n));
    } else {
        assert(v.take(n) =~= v);
    }
}

/// Reads `owner/repo` from a repository name or a GitHub address.
pub fn normalize_github_repo(input: &str) -> (res: Option<String>)
    ensures
        match res {
            Some(r) => normalized_repo(input@) == Some(r@),
            None => normalized_repo(input@).is_none(),
        },
{
    let t0 = trim_chars(chars_of(input).as_slice(), CharSet::WhiteSpace);
    let t = trim_end_chars(t0.as_slice(), CharSet::Slash);
    let path = if crate::text::starts_with_str(t.as_slice(), "https://github.com/") {
        proof { reveal_strlit("https://github.com/"); }
        slice_chars(t.as_slice(), 19, t.len())
    } else if crate::text::starts_with_str(t.as_slice(), "http://github.com/") {
        proof { reveal_strlit("http://github.com/"); }
        slice_chars(t.as_slice(), 18, t.len())
    } else if crate::text::starts_with_str(t.as_slice(), "github.com/") {
        proof { reveal_strlit("github.com/"); }
        slice_chars(t.as_slice(), 11, t.len())
    } else {
        slice_chars(t.as_slice(), 0, t.len())
    };
    assert(t@.subrange(0, t@.len() as int) =~= t@);
    assert(path@ =~= strip_github_prefix(t@));
    match first_two_slash_parts(path.as_slice()) {
        None => None,
        Some((owner, repo)) => {
            if crate::text::eq_str(owner.as_slice(), "repos") || crate::text::contains_char_exec(
                owner.as_slice(),
                ':',
            ) || crate::text::contains_char_exec(repo.as_slice(), ':') {
                return None;
            }
            let mut out = trim_end_str_chars(owner.as_slice(), ".git");
            push_str(&mut out, "/");
            let r = trim_end_str_chars(repo.as_slice(), ".git");
            push_all(&mut out, r.as_slice());
            Some(string_from_chars(out.as_slice()))
        },
    }
}

fn trim_end_chars(s: &[char], set: CharSet) -> (res: Vec<char>)
    ensures
        res@ == trim_end_by(s@, set),
{
    let end = trim_end_index(s, 0, set);
    assert(s@.subrange(0, s@.len() as int) =~= s@);
    slice_chars(s, 0, end)
}

// ---------------------------------------------------------------------------
// Display names from file names
// ---------------------------------------------------------------------------
/// `str::rsplit_once(c)`: the part before the last `c`.
pub open spec fn before_last(s: Seq<char>, c: char) -> Option<Seq<char>>
    decreases s.len(),
{
    if s.len() == 0 {
        None
    } else if s.last() == c {
        Some(s.drop_last())
    } else {
        before_last(s.drop_last(), c)
    }
}

/// The file name without its last extension.
pub open spec fn file_stem(f: Seq<char>) -> Seq<char> {
    match before_last(f, '.') {
        Some(left) => left,
        None => f,
    }
}

/// Words that describe a download rather than name a program.
pub open spec fn is_noise_word(w: Seq<char>) -> bool {
    w == "setup"@ || w == "installer"@ || w == "install"@ || w == "download"@ || w == "release"@
        || w == "stable"@ || w == "latest"@ || w == "x64"@ || w == "x86"@ || w == "win"@ || w
        == "windows"@
}

pub open spec fn all_digits(w: Seq<char>) -> bool {
    forall|i: int| 0 <= i < w.len() ==> crate::text::is_ascii_digit(#[trigger] w[i])
}

/// A word with its first letter in upper case.
pub open spec fn capitalize(w: Seq<char>) -> Seq<char> {
    seq![crate::text::ascii_upper_char(w[0])] + w.skip(1)
}

/// The word that a piece of a file name contributes to a display name.
/// Pieces hold ASCII letters and digits only, so their lower case is the
/// ASCII one.
pub open spec fn name_word(piece: Seq<char>) -> Option<Seq<char>> {
    let lower = ascii_lower(piece);
    if lower.len() == 0 || all_digits(lower) || is_noise_word(lower) {
        None
    } else {
        Some(capitalize(lower))
    }
}

/// Words joined by a separator.
pub open spec fn join_with(ws: Seq<Seq<char>>, sep: Seq<char>) -> Seq<char>
    decreases ws.len(),
{
    if ws.len() == 0 {
        Seq::<char>::empty()
    } else if ws.len() == 1 {
        ws[0]
    } else {
        join_with(ws.drop_last(), sep) + sep + ws.last()
    }
}

/// A display name guessed from a file name: the words of the name without
/// its extension, capitalised, with numbers and download words left out.
pub open spec fn display_name_of_file(f: Seq<char>) -> Option<Seq<char>> {
    let words = crate::text::split_on(file_stem(f), CharSet::NotAsciiAlnum).filter_map(
        |p: Seq<char>| name_word(p),
    );
    if words.len() == 0 {
        None
    } else {
        Some(join_with(words, " "@))
    }
}

fn file_stem_chars(f: &[char]) -> (res: Vec<char>)
    ensures
        res@ == file_stem(f@),
{
    let mut j: usize = f.len();
    assert(f@.subrange(0, j as int) =~= f@);
    while j > 0
        invariant
            j <= f@.len(),
            before_last(f@, '.') == before_last(f@.subrange(0, j as int), '.'),
        decreases j,
    {
        assert(f@.subrange(0, j as int).drop_last() =~= f@.subrange(0, j - 1 as int));
        if f[j - 1] == '.' {
            return slice_chars(f, 0, j - 1);
        }
        j = j - 1;
    }
    assert(f@.subrange(0, 0) =~= Seq::<char>::empty());
    slice_chars(f, 0, f.len())
}

fn is_noise_word_exec(w: &[char]) -> (res: bool)
    ensures
        res == is_noise_word(w@),
{
    crate::text::eq_str(w, "setup") || crate::text::eq_str(w, "installer") || crate::text::eq_str(
        w,
        "install",
    ) || crate::text::eq_str(w, "download") || crate::text::eq_str(w, "release")
        || crate::text::eq_str(w, "stable") || crate::text::eq_str(w, "latest")
        || crate::text::eq_str(w, "x64") || crate::text::eq_str(w, "x86") || crate::text::eq_str(
        w,
        "win",
    ) || crate::text::eq_str(w, "windows")
}

fn all_digits_exec(w: &[char]) -> (res: bool)
    ensures
        res == all_digits(w@),
{
    let mut i: usize = 0;
    while i < w.len()
        invariant
            i <= w@.len(),
            forall|j: int| 0 <= j < i ==> crate::text::is_ascii_digit(#[trigger] w@[j]),
        decreases w@.len() - i,
    {
        if !crate::text::is_ascii_digit_exec(w[i]) {
            return false;
        }
        i = i + 1;
    }
    true
}

fn name_word_exec(piece: &[char]) -> (res: Option<Vec<char>>)
    ensures
        match res {
            Some(v) => name_word(piece@) == Some(v@),
            None => name_word(piece@).is_none(),
        },
{
    let lower = crate::text::ascii_lower_exec(piece);
    if lower.len() == 0 || all_digits_exec(lower.as_slice()) || is_noise_word_exec(
        lower.as_slice(),
    ) {
        return None;
    }
    let mut out: Vec<char> = Vec::new();
    out.push(crate::text::ascii_upper_char_exec(lower[0]));
    let rest = slice_chars(lower.as_slice(), 1, lower.len());
    push_all(&mut out, rest.as_slice());
    assert(out@ =~= capitalize(lower@));
    Some(out)
}

/// Guesses a display name from a download's file name.
pub fn display_name_from_file_name(file_name: &str) -> (res: Option<String>)
    ensures
        match res {
            Some(n) => display_name_of_file(file_name@) == Some(n@),
            None => display_name_of_file(file_name@).is_none(),
        },
{
    let f = chars_of(file_name);
    let stem = file_stem_chars(f.as_slice());
    let parts = crate::text::split_exec(stem.as_slice(), CharSet::NotAsciiAlnum);
    let ghost pieces = crate::text::views(parts@);
    let ghost fm = |p: Seq<char>| name_word(p);
    let mut out: Vec<char> = Vec::new();
    let mut count: usize = 0;
    let mut i: usize = 0;
    assert(pieces.take(0).filter_map(fm) =~= Seq::<Seq<char>>::empty());
    while i < parts.len()
        invariant
            i <= parts@.len(),
            pieces == crate::text::views(parts@),
            fm == (|p: Seq<char>| name_word(p)),
            count == pieces.take(i as int).filter_map(fm).len(),
            count <= i,
            out@ == join_with(pieces.take(i as int).filter_map(fm), " "@),
        decreases parts@.len() - i,
    {
        let ghost before = pieces.take(i as int).filter_map(fm);
        assert(pieces.take(i + 1).drop_last() =~= pieces.take(i as int));
        assert(pieces.take(i + 1).last() == parts@[i as int]@);
        match name_word_exec(parts[i].as_slice()) {
            Some(w) => {
                assert(pieces.take(i + 1).filter_map(fm) =~= before + seq![w@]);
                if count > 0 {
                    push_str(&mut out, " ");
                }
                push_all(&mut out, w.as_slice());
                count = count + 1;
                let ghost after = before + seq![w@];
                assert(after.drop_last() =~= before);
                assert(after.last() == w@);
                proof {
                    if before.len() == 0 {
                        assert(out@ =~= w@);
                    }
                }
            },
            None => {
                assert(pieces.take(i + 1).filter_map(fm) =~= before);
            },
        }
        i = i + 1;
    }
    assert(pieces.take(i as int) =~= pieces);
    if count == 0 {
        None
    } else {
        Some(string_from_chars(out.as_slice()))
    }
}

/// The last piece of a URL's path, before any query.
pub open spec fn url_file_name(url: Seq<char>) -> Option<Seq<char>> {
    let without_query = crate::text::split_on(url, CharSet::Question)[0];
    let name = crate::text::split_on(without_query, CharSet::Slash).last();
    if name.len() > 0 {
        Some(name)
    } else {
        None
    }
}

/// The file name at the end of a download URL.
pub fn file_name_from_url(url: &str) -> (res: Option<String>)
    ensures
        match res {
            Some(n) => url_file_name(url@) == Some(n@),
            None => url_file_name(url@).is_none(),
        },
{
    let u = chars_of(url);
    let pieces = crate::text::split_exec(u.as_slice(), CharSet::Question);
    let segs = crate::text::split_exec(pieces[0].as_slice(), CharSet::Slash);
    let last = &segs[segs.len() - 1];
    assert(crate::text::views(pieces@)[0] == pieces@[0]@);
    assert(crate::text::views(segs@).last() == segs@[segs@.len() - 1]@);
    if last.len() > 0 {
        Some(string_from_chars(last.as_slice()))
    } else {
        None
    }
}

// ---------------------------------------------------------------------------
// Icon lookup
// ---------------------------------------------------------------------------
pub open spec fn has_http_scheme(s: Seq<char>) -> bool {
    "https://"@.is_prefix_of(s) || "http://"@.is_prefix_of(s)
}

fn has_http_scheme_exec(s: &[char]) -> (res: bool)
    ensures
        res == has_http_scheme(s@),
{
    crate::text::starts_with_str(s, "https://") || crate::text::starts_with_str(s, "http://")
}

/// A web address: trimmed, with `https://` added when it has no HTTP scheme.
pub open spec fn http_url(raw: Seq<char>) -> Seq<char> {
    let t = trim(raw);
    if has_http_scheme(t) {
        t
    } else {
        "https://"@ + t
    }
}

pub fn normalize_http_url(raw: &str) -> (res: Result<String, String>)
    ensures
        res matches Ok(u) && u@ == http_url(raw@),
{
    let t = crate::text::trimmed(raw);
    if has_http_scheme_exec(t.as_slice()) {
        Ok(string_from_chars(t.as_slice()))
    } else {
        let mut out = chars_of("https://");
        push_all(&mut out, t.as_slice());
        Ok(string_from_chars(out.as_slice()))
    }
}

/// A link target made absolute against the page it appears on.
pub open spec fn absolutized(url: Seq<char>, base: Seq<char>) -> Option<Seq<char>> {
    if has_http_scheme(url) {
        Some(url)
    } else if "//"@.is_prefix_of(url) {
        match url_scheme_of(base) {
            Some(scheme) => Some(scheme + ":"@ + url),
            None => None,
        }
    } else {
        url_joined(base, url)
    }
}

pub fn absolutize_url(url: &str, base_url: &str) -> (res: Option<String>)
    ensures
        opt_string_view(res) == absolutized(url@, base_url@),
{
    let u = chars_of(url);
    if has_http_scheme_exec(u.as_slice()) {
        return Some(String::from_str(url));
    }
    if crate::text::starts_with_str(u.as_slice(), "//") {
        match parsed_url_scheme(base_url) {
            Some(scheme) => {
                let mut out = chars_of(scheme.as_str());
                push_str(&mut out, ":");
                push_all(&mut out, u.as_slice());
                return Some(string_from_chars(out.as_slice()));
            },
            None => return None,
        }
    }
    joined_url(base_url, url)
}

/// `{origin}/favicon.ico` for the origin of `url`.
pub open spec fn favicon_for(url: Seq<char>) -> Result<Seq<char>, Seq<char>> {
    match url_origin_of(url) {
        Ok(o) => Ok(trim_end_by(o, CharSet::Slash) + "/favicon.ico"@),
        Err(e) => Err(e),
    }
}

pub fn favicon_url_for_origin(url: &str) -> (res: Result<String, String>)
    ensures
        match res {
            Ok(u) => favicon_for(url@) == Ok::<Seq<char>, Seq<char>>(u@),
            Err(e) => favicon_for(url@) == Err::<Seq<char>, Seq<char>>(e@),
        },
{
    match url_origin(url) {
        Ok(o) => {
            let oc = chars_of(o.as_str());
            let mut out = trim_end_chars(oc.as_slice(), CharSet::Slash);
            push_str(&mut out, "/favicon.ico");
            Ok(string_from_chars(out.as_slice()))
        },
        Err(e) => Err(e),
    }
}

/// The part of a URL before its query.
pub open spec fn before_query(url: Seq<char>) -> Seq<char> {
    crate::text::split_on(url, CharSet::Question)[0]
}

fn before_query_chars(url: &[char]) -> (res: Vec<char>)
    ensures
        res@ == before_query(url@),
{
    let pieces = crate::text::split_exec(url, CharSet::Question);
    assert(crate::text::views(pieces@)[0] == pieces@[0]@);
    slice_chars(pieces[0].as_slice(), 0, pieces[0].len())
}

/// File endings of installers and archives.
pub open spec fn download_suffixes() -> Seq<Seq<char>> {
    seq![
        ".exe"@,
        ".msi"@,
        ".zip"@,
        ".7z"@,
        ".rar"@,
        ".dmg"@,
        ".appimage"@,
        ".deb"@,
        ".rpm"@,
        ".msixbundle"@,
    ]
}

/// Whether a URL, ignoring its query and case, names an installer or an
/// archive rather than a page.
pub open spec fn is_download_url(url: Seq<char>) -> bool {
    let lower = crate::text::unicode_lowercase(before_query(url));
    exists|i: int| 0 <= i < 10 && (#[trigger] download_suffixes()[i]).is_suffix_of(lower)
}

pub fn is_probably_download_url(url: &str) -> (res: bool)
    ensures
        res == is_download_url(url@),
{
    let u = chars_of(url);
    let bq = before_query_chars(u.as_slice());
    let lower = crate::text::lowercase_chars(bq.as_slice());
    let l = lower.as_slice();
    let r = crate::text::ends_with_str(l, ".exe") || crate::text::ends_with_str(l, ".msi")
        || crate::text::ends_with_str(l, ".zip") || crate::text::ends_with_str(l, ".7z")
        || crate::text::ends_with_str(l, ".rar") || crate::text::ends_with_str(l, ".dmg")
        || crate::text::ends_with_str(l, ".appimage") || crate::text::ends_with_str(l, ".deb")
        || crate::text::ends_with_str(l, ".rpm") || crate::text::ends_with_str(l, ".msixbundle");
    proof {
        let sfx = download_suffixes();
        if r {
            if ".exe"@.is_suffix_of(lower@) {
                assert(sfx[0] == ".exe"@);
            } else if ".msi"@.is_suffix_of(lower@) {
                assert(sfx[1] == ".msi"@);
            } else if ".zip"@.is_suffix_of(lower@) {
                assert(sfx[2] == ".zip"@);
            } else if ".7z"@.is_suffix_of(lower@) {
                assert(sfx[3] == ".7z"@);
            } else if ".rar"@.is_suffix_of(lower@) {
                assert(sfx[4] == ".rar"@);
            } else if ".dmg"@.is_suffix_of(lower@) {
                assert(sfx[5] == ".dmg"@);
            } else if ".appimage"@.is_suffix_of(lower@) {
                assert(sfx[6] == ".appimage"@);
            } else if ".deb"@.is_suffix_of(lower@) {
                assert(sfx[7] == ".deb"@);
            } else if ".rpm"@.is_suffix_of(lower@) {
                assert(sfx[8] == ".rpm"@);
            } else {
                assert(sfx[9] == ".msixbundle"@);
            }
        } else {
            assert forall|i: int| 0 <= i < 10 implies !(#[trigger] sfx[i]).is_suffix_of(
                lower@,
            ) by {
                if i == 0 {
                } else if i == 1 {
                } else if i == 2 {
                } else if i == 3 {
                } else if i == 4 {
                } else if i == 5 {
                } else if i == 6 {
                } else if i == 7 {
                } else if i == 8 {
                } else {
                }
            }
        }
    }
    r
}

/// Hosts that serve Cursor's installers and site.
pub open spec fn is_cursor_host(h: Seq<char>) -> bool {
    h == "cursor.com"@ || h == "www.cursor.com"@ || h == "api2.cursor.sh"@ || h
        == "downloads.cursor.com"@
}

/// Whether a URL points at one of Cursor's official hosts.
pub open spec fn is_cursor_url(url: Seq<char>) -> bool {
    match url_host_of(url) {
        Some(Some(h)) => is_cursor_host(ascii_lower(h)),
        _ => false,
    }
}

pub fn is_cursor_official_source(url: &str) -> (res: bool)
    ensures
        res == is_cursor_url(url@),
{
    match url_host(url) {
        Some(Some(h)) => {
            let hc = chars_of(h.as_str());
            let l = crate::text::ascii_lower_exec(hc.as_slice());
            crate::text::eq_str(l.as_slice(), "cursor.com") || crate::text::eq_str(
                l.as_slice(),
                "www.cursor.com",
            ) || crate::text::eq_str(l.as_slice(), "api2.cursor.sh") || crate::text::eq_str(
                l.as_slice(),
                "downloads.cursor.com",
            )
        },
        _ => false,
    }
}

pub open spec fn opt_static_view(o: Option<&'static str>) -> Option<Seq<char>> {
    match o {
        Some(s) => Some(s@),
        None => None,
    }
}

/// The icon file extension that an HTTP `Content-Type` announces.
pub open spec fn ext_for_content_type(ct: Seq<char>) -> Option<Seq<char>> {
    let lower = crate::text::unicode_lowercase(ct);
    if crate::text::contains_seq(lower, "png"@) {
        Some("png"@)
    } else if crate::text::contains_seq(lower, "jpeg"@) || crate::text::contains_seq(lower, "jpg"@) {
        Some("jpg"@)
    } else if crate::text::contains_seq(lower, "svg"@) {
        Some("svg"@)
    } else if crate::text::contains_seq(lower, "webp"@) {
        Some("webp"@)
    } else if crate::text::contains_seq(lower, "icon"@) || crate::text::contains_seq(lower, "ico"@) {
        Some("ico"@)
    } else {
        None
    }
}

pub fn icon_ext_from_content_type(content_type: &str) -> (res: Option<&'static str>)
    ensures
        opt_static_view(res) == ext_for_content_type(content_type@),
{
    let lower = crate::text::lowercase_chars(chars_of(content_type).as_slice());
    let l = lower.as_slice();
    if crate::text::contains_str(l, "png") {
        Some("png")
    } else if crate::text::contains_str(l, "jpeg") || crate::text::contains_str(l, "jpg") {
        Some("jpg")
    } else if crate::text::contains_str(l, "svg") {
        Some("svg")
    } else if crate::text::contains_str(l, "webp") {
        Some("webp")
    } else if crate::text::contains_str(l, "icon") || crate::text::contains_str(l, "ico") {
        Some("ico")
    } else {
        None
    }
}

/// The icon file extension that ends a URL's path (`jpeg` read as `jpg`).
pub open spec fn ext_for_url(url: Seq<char>) -> Option<Seq<char>> {
    let lower = crate::text::unicode_lowercase(before_query(url));
    if ".png"@.is_suffix_of(lower) {
        Some("png"@)
    } else if ".jpg"@.is_suffix_of(lower) {
        Some("jpg"@)
    } else if ".jpeg"@.is_suffix_of(lower) {
        Some("jpg"@)
    } else if ".svg"@.is_suffix_of(lower) {
        Some("svg"@)
    } else if ".webp"@.is_suffix_of(lower) {
        Some("webp"@)
    } else if ".ico"@.is_suffix_of(lower) {
        Some("ico"@)
    } else {
        None
    }
}

pub fn icon_ext_from_url(url: &str) -> (res: Option<&'static str>)
    ensures
        opt_static_view(res) == ext_for_url(url@),
{
    let bq = before_query_chars(chars_of(url).as_slice());
    let lower = crate::text::lowercase_chars(bq.as_slice());
    let l = lower.as_slice();
    if crate::text::ends_with_str(l, ".png") {
        Some("png")
    } else if crate::text::ends_with_str(l, ".jpg") {
        Some("jpg")
    } else if crate::text::ends_with_str(l, ".jpeg") {
        Some("jpg")
    } else if crate::text::ends_with_str(l, ".svg") {
        Some("svg")
    } else if crate::text::ends_with_str(l, ".webp") {
        Some("webp")
    } else if crate::text::ends_with_str(l, ".ico") {
        Some("ico")
    } else {
        None
    }
}

/// The extension under which a downloaded icon is saved: from the content
/// type, else from the URL, else `png`.
pub fn icon_file_extension(content_type: &str, icon_url: &str) -> (res: &'static str)
    ensures
        res@ == match ext_for_content_type(content_type@) {
            Some(e) => e,
            None => match ext_for_url(icon_url@) {
                Some(e) => e,
                None => "png"@,
            },
        },
{
    match icon_ext_from_content_type(content_type) {
        Some(e) => e,
        None => match icon_ext_from_url(icon_url) {
            Some(e) => e,
            None => "png",
        },
    }
}

/// `{data}\icons\{slug(id)}.{ext}`.
pub fn custom_icon_file_path(data_dir: &str, id: &str, ext: &str) -> (res: String)
    ensures
        res@ == join_path(join_path(data_dir@, "icons"@), slug(id@) + "."@ + ext@),
{
    let dir = join_path_str(data_dir, "icons");
    let mut name = slug_chars(chars_of(id).as_slice());
    push_str(&mut name, ".");
    push_str(&mut name, ext);
    let n = string_from_chars(name.as_slice());
    join_path_str(dir.as_str(), n.as_str())
}

/// The PowerShell command that saves the clipboard's image as a PNG file at
/// `path`; it exits with code 2 when the clipboard holds no image.
pub fn clipboard_icon_script(path: &str) -> (res: String)
    ensures
        res@ == "\nAdd-Type -AssemblyName System.Windows.Forms\nAdd-Type -AssemblyName System.Drawing\n$img = [System.Windows.Forms.Clipboard]::GetImage()\nif ($null -eq $img) { exit 2 }\n$img.Save('"@
            + crate::visual_target::ps_single_quoted(path@)
            + "', [System.Drawing.Imaging.ImageFormat]::Png)\n"@,
{
    let mut v = chars_of(
        "\nAdd-Type -AssemblyName System.Windows.Forms\nAdd-Type -AssemblyName System.Drawing\n$img = [System.Windows.Forms.Clipboard]::GetImage()\nif ($null -eq $img) { exit 2 }\n$img.Save('",
    );
    let quoted = crate::visual_target::ps_single_quoted_exec(chars_of(path).as_slice());
    push_all(&mut v, quoted.as_slice());
    push_str(&mut v, "', [System.Drawing.Imaging.ImageFormat]::Png)\n");
    string_from_chars(v.as_slice())
}

// ---------------------------------------------------------------------------
// Icon links in HTML
// ---------------------------------------------------------------------------
/// The quoted value of attribute `name` in an HTML tag, as a simple scan
/// reads it: the text after the first `name=` (and any white space), between
/// a quote and the next matching one.
pub open spec fn attr_value(tag: Seq<char>, name: Seq<char>) -> Option<Seq<char>> {
    let pattern = name + "="@;
    match crate::text::first_occurrence_from(tag, pattern, 0) {
        None => None,
        Some(i) => {
            let tail = crate::text::trim_start_by(tag.skip(i + pattern.len()), CharSet::WhiteSpace);
            if tail.len() == 0 {
                None
            } else if tail[0] == '"' {
                Some(crate::text::split_on(tail.skip(1), CharSet::Quote)[0])
            } else if tail[0] == '\'' {
                Some(crate::text::split_on(tail.skip(1), CharSet::Apostrophe)[0])
            } else {
                None
            }
        },
    }
}

fn extract_attr_chars(tag: &[char], name: &str) -> (res: Option<Vec<char>>)
    ensures
        match res {
            Some(v) => attr_value(tag@, name@) == Some(v@),
            None => attr_value(tag@, name@).is_none(),
        },
{
    let mut pattern = chars_of(name);
    push_str(&mut pattern, "=");
    match crate::text::find_first_from(tag, pattern.as_slice(), 0) {
        None => None,
        Some(i) => {
            proof {
                assert(crate::text::occurs_at(tag@, pattern@, i as int));
            }
            let n = tag.len();
            let after = slice_chars(tag, i + pattern.len(), n);
            assert(after@ =~= tag@.skip(i + pattern@.len()));
            let start = crate::text::trim_start_index(after.as_slice(), CharSet::WhiteSpace);
            if start >= after.len() {
                return None;
            }
            let q = after[start];
            let set = if q == '"' {
                CharSet::Quote
            } else if q == '\'' {
                CharSet::Apostrophe
            } else {
                return None;
            };
            let inner = slice_chars(after.as_slice(), start + 1, after.len());
            assert(inner@ =~= after@.skip(start as int).skip(1));
            let pieces = crate::text::split_exec(inner.as_slice(), set);
            assert(crate::text::views(pieces@)[0] == pieces@[0]@);
            Some(slice_chars(pieces[0].as_slice(), 0, pieces[0].len()))
        },
    }
}

/// Reads the quoted value of an attribute from an HTML tag.
pub fn extract_attr(tag: &str, name: &str) -> (res: Option<String>)
    ensures
        opt_string_view(res) == attr_value(tag@, name@),
{
    match extract_attr_chars(chars_of(tag).as_slice(), name) {
        Some(v) => Some(string_from_chars(v.as_slice())),
        None => None,
    }
}

/// The end of the tag that starts at `i`: its first `>`, or the end of the
/// page.
pub open spec fn tag_end(s: Seq<char>, i: int) -> int {
    match crate::text::first_char_from(s, '>', i) {
        Some(k) => k,
        None => s.len() as int,
    }
}

/// The `<link` tags of a page from position `from` on, in order; a tag runs
/// to its first `>`, where the search for the next one resumes.
#[verifier::opaque]
pub open spec fn link_tags_from(s: Seq<char>, from: int) -> Seq<Seq<char>>
    decreases s.len() - from,
{
    match crate::text::first_occurrence_from(s, "<link"@, from) {
        None => Seq::<Seq<char>>::empty(),
        Some(i) => {
            let e = tag_end(s, i);
            if from < e <= s.len() {
                seq![s.subrange(i, e)] + link_tags_from(s, e)
            } else {
                Seq::<Seq<char>>::empty()
            }
        },
    }
}

/// How strongly a `rel` value marks a good icon.
pub open spec fn icon_score(rel: Seq<char>) -> int {
    if crate::text::contains_seq(rel, "apple-touch-icon"@) {
        30
    } else if crate::text::contains_seq(rel, "shortcut"@) {
        20
    } else {
        10
    }
}

/// The score and absolute address of the icon a link tag declares.
#[verifier::opaque]
pub open spec fn link_candidate(tag: Seq<char>, base: Seq<char>) -> Option<(int, Seq<char>)> {
    let rel = crate::text::unicode_lowercase(
        match attr_value(tag, "rel"@) {
            Some(r) => r,
            None => Seq::<char>::empty(),
        },
    );
    if !crate::text::contains_seq(rel, "icon"@) {
        None
    } else {
        match attr_value(tag, "href"@) {
            None => None,
            Some(href) => match absolutized(href, base) {
                None => None,
                Some(u) => Some((icon_score(rel), u)),
            },
        }
    }
}

/// The first of the candidates with the highest score.
pub open spec fn best_icon(tags: Seq<Seq<char>>, base: Seq<char>) -> Option<(int, Seq<char>)>
    decreases tags.len(),
{
    if tags.len() == 0 {
        None
    } else {
        let prev = best_icon(tags.drop_last(), base);
        match link_candidate(tags.last(), base) {
            None => prev,
            Some(c) => match prev {
                None => Some(c),
                Some(p) => if c.0 > p.0 {
                    Some(c)
                } else {
                    prev
                },
            },
        }
    }
}

/// The icon a page declares, or why there is none.
pub open spec fn page_icon(html: Seq<char>, base: Seq<char>) -> Result<Seq<char>, Seq<char>> {
    match best_icon(link_tags_from(html, 0), base) {
        Some(c) => Ok(c.1),
        None => Err("官网页面没有声明图标"@),
    }
}

fn link_candidate_exec(tag: &[char], base_url: &str) -> (res: Option<(i32, String)>)
    ensures
        match res {
            Some((score, url)) => link_candidate(tag@, base_url@) == Some((score as int, url@)),
            None => link_candidate(tag@, base_url@).is_none(),
        },
{
    reveal(link_candidate);
    let rel_raw = match extract_attr_chars(tag, "rel") {
        Some(r) => r,
        None => Vec::new(),
    };
    let rel = crate::text::lowercase_chars(rel_raw.as_slice());
    if !crate::text::contains_str(rel.as_slice(), "icon") {
        return None;
    }
    match extract_attr_chars(tag, "href") {
        None => None,
        Some(href) => {
            let score: i32 = if crate::text::contains_str(rel.as_slice(), "apple-touch-icon") {
                30
            } else if crate::text::contains_str(rel.as_slice(), "shortcut") {
                20
            } else {
                10
            };
            let hs = string_from_chars(href.as_slice());
            match absolutize_url(hs.as_str(), base_url) {
                None => None,
                Some(u) => Some((score, u)),
            }
        },
    }
}

/// Finds the icon that a page's `<link>` tags declare, preferring
/// `apple-touch-icon`, then `shortcut icon`, then any other icon.
pub fn find_icon_link(html: &str, base_url: &str) -> (res: Result<String, String>)
    ensures
        match res {
            Ok(u) => page_icon(html@, base_url@) == Ok::<Seq<char>, Seq<char>>(u@),
            Err(e) => page_icon(html@, base_url@) == Err::<Seq<char>, Seq<char>>(e@),
        },
{
    let h = chars_of(html);
    let pat = chars_of("<link");
    let mut best: Option<(i32, String)> = None;
    let mut from: usize = 0;
    let ghost mut done: Seq<Seq<char>> = Seq::empty();
    loop
        invariant
            from <= h@.len(),
            h@ == html@,
            pat@ == "<link"@,
            link_tags_from(h@, 0) == done + link_tags_from(h@, from as int),
            match best {
                Some((sc, u)) => best_icon(done, base_url@) == Some((sc as int, u@)),
                None => best_icon(done, base_url@).is_none(),
            },
        decreases h@.len() - from,
    {
        match crate::text::find_first_from(h.as_slice(), pat.as_slice(), from) {
            None => {
                proof {
                    reveal(link_tags_from);
                }
                assert(done + link_tags_from(h@, from as int) =~= done);
                return match best {
                    Some((_, u)) => Ok(u),
                    None => Err(String::from_str("官网页面没有声明图标")),
                };
            },
            Some(i) => {
                proof {
                    reveal_strlit("<link");
                    assert(pat@[0] == '<');
                    assert(crate::text::occurs_at(h@, pat@, i as int));
                    assert(h@.subrange(i as int, i + pat@.len())[0] == '<');
                }
                let e: usize = match crate::text::find_first_char_from(h.as_slice(), '>', i) {
                    Some(k) => k,
                    None => h.len(),
                };
                proof {
                    assert(h@[i as int] == '<');
                    assert(e as int == tag_end(h@, i as int));
                    assert(e > i) by {
                        if e == i {
                            assert(h@[i as int] == '>');
                        }
                    }
                }
                let tag = slice_chars(h.as_slice(), i, e);
                let ghost old_done = done;
                proof {
                    reveal(link_tags_from);
                    assert(link_tags_from(h@, from as int) == seq![h@.subrange(i as int, e as int)]
                        + link_tags_from(h@, e as int));
                    done = done.push(tag@);
                    assert(old_done + link_tags_from(h@, from as int) =~= done + link_tags_from(
                        h@,
                        e as int,
                    ));
                    assert(done.drop_last() =~= old_done);
                }
                match link_candidate_exec(tag.as_slice(), base_url) {
                    None => {},
                    Some((score, url)) => {
                        let replace = match &best {
                            None => true,
                            Some((s0, _)) => score > *s0,
                        };
                        if replace {
                            best = Some((score, url));
                        }
                    },
                }
                from = e;
            },
        }
    }
}

/// The lowercased `rel` value of a link tag (empty without one).
pub open spec fn link_rel(tag: Seq<char>) -> Seq<char> {
    crate::text::unicode_lowercase(
        match attr_value(tag, "rel"@) {
            Some(r) => r,
            None => Seq::<char>::empty(),
        },
    )
}

/// A link tag that declares an icon: its `rel` names an icon and its `href`
/// gives an address.
pub open spec fn declares_icon(tag: Seq<char>, base: Seq<char>) -> bool {
    &&& crate::text::contains_seq(link_rel(tag), "icon"@)
    &&& attr_value(tag, "href"@) matches Some(h) && absolutized(h, base) is Some
}

/// How an icon link ranks: `apple-touch-icon` first, then `shortcut`, then
/// any other.
pub open spec fn icon_rank(tag: Seq<char>) -> int {
    if crate::text::contains_seq(link_rel(tag), "apple-touch-icon"@) {
        2
    } else if crate::text::contains_seq(link_rel(tag), "shortcut"@) {
        1
    } else {
        0
    }
}

proof fn lemma_link_candidate(tag: Seq<char>, base: Seq<char>)
    ensures
        link_candidate(tag, base) is Some <==> declares_icon(tag, base),
        match link_candidate(tag, base) {
            Some(c) => c.0 == 10 + 10 * icon_rank(tag) && (attr_value(tag, "href"@) matches Some(h)
                && absolutized(h, base) == Some(c.1)),
            None => true,
        },
{
    reveal(link_candidate);
}

spec fn scores_at_most(c: Option<(int, Seq<char>)>, s: int) -> bool {
    match c {
        Some(d) => d.0 <= s,
        None => true,
    }
}

spec fn scores_below(c: Option<(int, Seq<char>)>, s: int) -> bool {
    match c {
        Some(d) => d.0 < s,
        None => true,
    }
}

/// `best_icon` picked candidate `c` at position `i`: the first with the
/// highest score.
spec fn best_at(tags: Seq<Seq<char>>, base: Seq<char>, c: (int, Seq<char>), i: int) -> bool {
    &&& 0 <= i < tags.len()
    &&& link_candidate(tags[i], base) == Some(c)
    &&& forall|j: int|
        0 <= j < tags.len() ==> scores_at_most(#[trigger] link_candidate(tags[j], base), c.0)
    &&& forall|j: int| 0 <= j < i ==> scores_below(#[trigger] link_candidate(tags[j], base), c.0)
}

proof fn lemma_best_icon(tags: Seq<Seq<char>>, base: Seq<char>)
    ensures
        match best_icon(tags, base) {
            Some(c) => exists|i: int| best_at(tags, base, c, i),
            None => forall|j: int|
                0 <= j < tags.len() ==> (#[trigger] link_candidate(tags[j], base)) is None,
        },
    decreases tags.len(),
{
    if tags.len() > 0 {
        let prev_tags = tags.drop_last();
        lemma_best_icon(prev_tags, base);
        let n = tags.len() - 1;
        assert forall|j: int| 0 <= j < n implies tags[j] == #[trigger] prev_tags[j] by {}
        match best_icon(prev_tags, base) {
            Some(p) => {
                let i = choose|i: int| best_at(prev_tags, base, p, i);
                assert(tags[i] == prev_tags[i]);
                assert forall|j: int| 0 <= j < n implies #[trigger] link_candidate(tags[j], base)
                    == link_candidate(prev_tags[j], base) by {}
                match link_candidate(tags.last(), base) {
                    Some(c) => {
                        if c.0 > p.0 {
                            assert(best_at(tags, base, c, n));
                        } else {
                            assert(best_at(tags, base, p, i));
                        }
                    },
                    None => {
                        assert(best_at(tags, base, p, i));
                    },
                }
            },
            None => {
                assert forall|j: int| 0 <= j < n implies #[trigger] link_candidate(tags[j], base)
                    == link_candidate(prev_tags[j], base) by {}
                match link_candidate(tags.last(), base) {
                    Some(c) => {
                        assert(best_at(tags, base, c, n));
                    },
                    None => {},
                }
            },
        }
    }
}

/// The icon of a page comes from one of its link tags that declares an icon
/// (a `rel` whose lowercase names an icon, and an `href`): the first of the
/// best rank, `apple-touch-icon` before `shortcut` before any other. A page
/// whose link tags declare no icon gives the no-icon error.
pub proof fn law_page_icon_is_a_declared_icon(html: Seq<char>, base: Seq<char>)
    ensures
        ({
            let tags = link_tags_from(html, 0);
            match page_icon(html, base) {
                Ok(u) => exists|i: int|
                    0 <= i < tags.len() && declares_icon(#[trigger] tags[i], base)
                        && crate::text::contains_seq(link_rel(tags[i]), "icon"@) && (attr_value(
                        tags[i],
                        "href"@,
                    ) matches Some(h) && absolutized(h, base) == Some(u)) && (forall|j: int|
                        0 <= j < tags.len() && declares_icon(#[trigger] tags[j], base) ==> icon_rank(
                            tags[j],
                        ) <= icon_rank(tags[i])) && (forall|j: int|
                        0 <= j < i && declares_icon(#[trigger] tags[j], base) ==> icon_rank(tags[j])
                            < icon_rank(tags[i])),
                Err(e) => e == "官网页面没有声明图标"@ && forall|j: int|
                    0 <= j < tags.len() ==> !declares_icon(#[trigger] tags[j], base),
            }
        }),
        (forall|j: int|
            0 <= j < link_tags_from(html, 0).len() ==> !crate::text::contains_seq(
                link_rel(#[trigger] link_tags_from(html, 0)[j]),
                "icon"@,
            )) ==> page_icon(html, base) == Err::<Seq<char>, Seq<char>>("官网页面没有声明图标"@),
{
    let tags = link_tags_from(html, 0);
    lemma_best_icon(tags, base);
    assert forall|j: int| 0 <= j < tags.len() implies (link_candidate(tags[j], base) is Some
        <==> declares_icon(#[trigger] tags[j], base)) by {
        lemma_link_candidate(tags[j], base);
    }
    match best_icon(tags, base) {
        Some(c) => {
            let i = choose|i: int| best_at(tags, base, c, i);
            lemma_link_candidate(tags[i], base);
            assert forall|j: int|
                0 <= j < tags.len() && declares_icon(#[trigger] tags[j], base) implies icon_rank(
                    tags[j],
                ) <= icon_rank(tags[i]) by {
                lemma_link_candidate(tags[j], base);
            }
            assert forall|j: int|
                0 <= j < i && declares_icon(#[trigger] tags[j], base) implies icon_rank(tags[j])
                    < icon_rank(tags[i]) by {
                lemma_link_candidate(tags[j], base);
            }
        },
        None => {},
    }
}

// ---------------------------------------------------------------------------
// Lookup by id
// ---------------------------------------------------------------------------
/// The position of the first stored source with this id.
pub open spec fn first_with_id(list: Seq<ConfigView>, id: Seq<char>) -> Option<int>
    decreases list.len(),
{
    if list.len() == 0 {
        None
    } else if list[0].id == id {
        Some(0)
    } else {
        match first_with_id(list.drop_first(), id) {
            Some(k) => Some(k + 1),
            None => None,
        }
    }
}

pub proof fn lemma_first_with_id(list: Seq<ConfigView>, id: Seq<char>, i: int)
    requires
        0 <= i <= list.len(),
        forall|j: int| 0 <= j < i ==> list[j].id != id,
    ensures
        i < list.len() && list[i].id == id ==> first_with_id(list, id) == Some(i),
        i == list.len() ==> first_with_id(list, id).is_none(),
    decreases i,
{
    if i > 0 {
        assert forall|j: int| 0 <= j < i - 1 implies list.drop_first()[j].id != id by {
            assert(list.drop_first()[j] == list[j + 1]);
        }
        lemma_first_with_id(list.drop_first(), id, i - 1);
    }
}

pub proof fn lemma_first_with_id_found(list: Seq<ConfigView>, id: Seq<char>)
    ensures
        match first_with_id(list, id) {
            Some(k) => 0 <= k < list.len() && list[k].id == id && forall|j: int|
                0 <= j < k ==> list[j].id != id,
            None => forall|j: int| 0 <= j < list.len() ==> list[j].id != id,
        },
    decreases list.len(),
{
    if list.len() > 0 {
        lemma_first_with_id_found(list.drop_first(), id);
        match first_with_id(list.drop_first(), id) {
            Some(k) => {
                assert(list.drop_first()[k] == list[k + 1]);
                assert forall|j: int| 0 <= j < k + 1 && list[0].id != id implies (#[trigger] list[j]).id != id by {
                    if j > 0 {
                        assert(list[j] == list.drop_first()[j - 1]);
                    }
                }
            },
            None => {
                assert forall|j: int| 0 <= j < list.len() && list[0].id != id implies (
                #[trigger] list[j]).id != id by {
                    if j > 0 {
                        assert(list[j] == list.drop_first()[j - 1]);
                    }
                }
            },
        }
    }
}

/// The position of the first stored source with this id.
pub fn find_config_index(list: &[CustomSoftwareConfig], id: &str) -> (res: Option<usize>)
    ensures
        match res {
            Some(k) => first_with_id(configs_view(list@), id@) == Some(k as int) && k
                < list@.len(),
            None => first_with_id(configs_view(list@), id@).is_none(),
        },
{
    let ghost v = configs_view(list@);
    let mut i: usize = 0;
    while i < list.len()
        invariant
            i <= list@.len(),
            v == configs_view(list@),
            forall|j: int| 0 <= j < i ==> v[j].id != id@,
        decreases list@.len() - i,
    {
        if crate::text::str_eq(list[i].id.as_str(), id) {
            proof {
                lemma_first_with_id(v, id@, i as int);
            }
            return Some(i);
        }
        i = i + 1;
    }
    proof {
        lemma_first_with_id(v, id@, i as int);
    }
    None
}

/// The stored source with this id.
pub fn get_custom_software(list: &[CustomSoftwareConfig], id: &str) -> (res: Result<
    CustomSoftwareConfig,
    String,
>)
    ensures
        match first_with_id(configs_view(list@), id@) {
            Some(k) => res matches Ok(c) && c@ == configs_view(list@)[k],
            None => res matches Err(e) && e@ == "自定义下载源不存在"@,
        },
{
    match find_config_index(list, id) {
        Some(k) => Ok(list[k].duplicate()),
        None => Err(String::from_str("自定义下载源不存在")),
    }
}

/// The source with this id, for fetching its icon.
pub fn get_custom_config_by_id(list: &[CustomSoftwareConfig], id: &str) -> (res: Result<
    CustomSoftwareConfig,
    String,
>)
    ensures
        match first_with_id(configs_view(list@), id@) {
            Some(k) => res matches Ok(c) && c@ == configs_view(list@)[k],
            None => res matches Err(e) && e@ == "自定义下载源不存在"@,
        },
{
    get_custom_software(list, id)
}

/// `c` with another icon path.
pub open spec fn with_icon(c: ConfigView, icon: Seq<char>) -> ConfigView {
    ConfigView { icon_path: icon, ..c }
}

/// Clears the icon of the source with this id.
pub fn clear_custom_software_icon(list: &mut Vec<CustomSoftwareConfig>, id: &str) -> (res: Result<
    (),
    String,
>)
    ensures
        match first_with_id(configs_view(old(list)@), id@) {
            Some(k) => res is Ok && configs_view(final(list)@) == configs_view(old(list)@).update(
                k,
                with_icon(configs_view(old(list)@)[k], Seq::<char>::empty()),
            ),
            None => res matches Err(e) && e@ == "自定义下载源不存在"@ && final(list)@ == old(list)@,
        },
{
    update_icon(list, id, String::new()).map(|_p: String| ())
}

/// Records the saved icon of the source with this id and returns its path.
pub fn update_custom_icon_path(list: &mut Vec<CustomSoftwareConfig>, id: &str, path: &str) -> (res:
    Result<String, String>)
    ensures
        match first_with_id(configs_view(old(list)@), id@) {
            Some(k) => res matches Ok(p) && p@ == path@ && configs_view(final(list)@)
                == configs_view(old(list)@).update(
                k,
                with_icon(configs_view(old(list)@)[k], path@),
            ),
            None => res matches Err(e) && e@ == "自定义下载源不存在"@ && final(list)@ == old(list)@,
        },
{
    update_icon(list, id, String::from_str(path))
}

fn update_icon(list: &mut Vec<CustomSoftwareConfig>, id: &str, icon: String) -> (res: Result<
    String,
    String,
>)
    ensures
        match first_with_id(configs_view(old(list)@), id@) {
            Some(k) => res matches Ok(p) && p@ == icon@ && configs_view(final(list)@)
                == configs_view(old(list)@).update(
                k,
                with_icon(configs_view(old(list)@)[k], icon@),
            ),
            None => res matches Err(e) && e@ == "自定义下载源不存在"@ && final(list)@ == old(list)@,
        },
{
    match find_config_index(list.as_slice(), id) {
        None => Err(String::from_str("自定义下载源不存在")),
        Some(k) => {
            let mut item = list[k].duplicate();
            let ret = icon.clone();
            item.icon_path = icon;
            let ghost before = list@;
            list.set(k, item);
            assert(configs_view(list@) =~= configs_view(before).update(
                k as int,
                with_icon(configs_view(before)[k as int], ret@),
            ));
            Ok(ret)
        },
    }
}

/// Removes every source with this id.
pub fn remove_custom_software(list: &mut Vec<CustomSoftwareConfig>, id: &str)
    ensures
        configs_view(final(list)@) == configs_view(old(list)@).filter(
            |c: ConfigView| c.id != id@,
        ),
{
    let ghost pred = |c: ConfigView| c.id != id@;
    let ghost orig = configs_view(list@);
    let mut kept: Vec<CustomSoftwareConfig> = Vec::new();
    let mut i: usize = 0;
    reveal(Seq::filter);
    assert(orig.take(0).filter(pred) =~= Seq::<ConfigView>::empty());
    while i < list.len()
        invariant
            i <= list@.len(),
            orig == configs_view(list@),
            pred == (|c: ConfigView| c.id != id@),
            configs_view(kept@) == orig.take(i as int).filter(pred),
        decreases list@.len() - i,
    {
        reveal(Seq::filter);
        assert(orig.take(i + 1).drop_last() =~= orig.take(i as int));
        assert(orig.take(i + 1).last() == list@[i as int]@);
        if !crate::text::str_eq(list[i].id.as_str(), id) {
            let ghost before = kept@;
            kept.push(list[i].duplicate());
            assert(configs_view(kept@) =~= configs_view(before).push(list@[i as int]@));
        }
        i = i + 1;
    }
    assert(orig.take(i as int) =~= orig);
    *list = kept;
}

/// Ids of the sources that have no icon yet.
pub fn missing_icon_ids(list: &[CustomSoftwareConfig]) -> (res: Vec<String>)
    ensures
        res@.map_values(|s: String| s@) == configs_view(list@).filter(
            |c: ConfigView| trim(c.icon_path).len() == 0,
        ).map_values(|c: ConfigView| c.id),
{
    let ghost pred = |c: ConfigView| trim(c.icon_path).len() == 0;
    let ghost orig = configs_view(list@);
    let mut out: Vec<String> = Vec::new();
    let mut i: usize = 0;
    reveal(Seq::filter);
    assert(orig.take(0).filter(pred) =~= Seq::<ConfigView>::empty());
    while i < list.len()
        invariant
            i <= list@.len(),
            orig == configs_view(list@),
            pred == (|c: ConfigView| trim(c.icon_path).len() == 0),
            out@.map_values(|s: String| s@) == orig.take(i as int).filter(pred).map_values(
                |c: ConfigView| c.id,
            ),
        decreases list@.len() - i,
    {
        reveal(Seq::filter);
        assert(orig.take(i + 1).drop_last() =~= orig.take(i as int));
        assert(orig.take(i + 1).last() == list@[i as int]@);
        let ghost fb = orig.take(i as int).filter(pred);
        if crate::text::is_blank(list[i].icon_path.as_str()) {
            let ghost before = out@;
            let idc = list[i].id.clone();
            out.push(idc);
            assert(out@ == before.push(idc));
            assert(idc@ == list@[i as int]@.id);
            assert(out@.map_values(|s: String| s@) =~= before.map_values(|s: String| s@).push(
                idc@,
            ));
            assert(fb.push(list@[i as int]@).map_values(|c: ConfigView| c.id) =~= fb.map_values(
                |c: ConfigView| c.id,
            ).push(list@[i as int]@.id));
            assert(out@.map_values(|s: String| s@) =~= fb.push(list@[i as int]@).map_values(
                |c: ConfigView| c.id,
            ));
        }
        i = i + 1;
    }
    assert(orig.take(i as int) =~= orig);
    out
}

// ---------------------------------------------------------------------------
// Default silent-install profiles
// ---------------------------------------------------------------------------
/// Silent-install arguments of a Visual Studio Code user setup.
pub open spec fn vscode_silent_args() -> Seq<char> {
    "/VERYSILENT /SUPPRESSMSGBOXES /MERGETASKS=\"desktopicon,!associatewithfiles\""@
}

/// Silent-install arguments of the Cursor installer.
pub open spec fn cursor_silent_args() -> Seq<char> {
    "/VERYSILENT /SUPPRESSMSGBOXES"@
}

/// The text that identifies a direct download: id, name, addresses and
/// matcher, lower case.
pub open spec fn source_identity(c: ConfigView) -> Seq<char> {
    ascii_lower(
        c.id + " "@ + c.display_name + " "@ + c.download_url + " "@ + c.page_url + " "@
            + c.asset_match,
    )
}

/// The silent-install arguments of a source once the known installers get
/// their defaults; arguments the user wrote are never replaced.
pub open spec fn silent_args_with_defaults(c: ConfigView) -> Seq<char> {
    if trim(c.silent_install_args).len() > 0 || c.source_kind != "direct"@ {
        c.silent_install_args
    } else {
        let identity = source_identity(c);
        if crate::text::contains_seq(identity, "visual-studio-code"@) || crate::text::contains_seq(
            identity,
            "visual studio code"@,
        ) || crate::text::contains_seq(identity, "code.visualstudio.com"@) {
            vscode_silent_args()
        } else if crate::text::contains_seq(identity, "cursor"@) || crate::text::contains_seq(
            identity,
            "cursor.com"@,
        ) {
            cursor_silent_args()
        } else {
            c.silent_install_args
        }
    }
}

pub open spec fn with_silent_args(c: ConfigView, args: Seq<char>) -> ConfigView {
    ConfigView { silent_install_args: args, ..c }
}

/// Gives recognised official installers their safe default silent-install
/// arguments.
pub fn apply_default_silent_install_args(config: &mut CustomSoftwareConfig)
    ensures
        final(config)@ == with_silent_args(old(config)@, silent_args_with_defaults(old(config)@)),
{
    if !crate::text::is_blank(config.silent_install_args.as_str()) || !crate::text::str_eq(
        config.source_kind.as_str(),
        "direct",
    ) {
        return;
    }
    let mut identity: Vec<char> = chars_of(config.id.as_str());
    push_str(&mut identity, " ");
    push_str(&mut identity, config.display_name.as_str());
    push_str(&mut identity, " ");
    push_str(&mut identity, config.download_url.as_str());
    push_str(&mut identity, " ");
    push_str(&mut identity, config.page_url.as_str());
    push_str(&mut identity, " ");
    push_str(&mut identity, config.asset_match.as_str());
    let id = crate::text::ascii_lower_exec(identity.as_slice());
    assert(id@ == source_identity(old(config)@));
    let i = id.as_slice();
    if crate::text::contains_str(i, "visual-studio-code") || crate::text::contains_str(
        i,
        "visual studio code",
    ) || crate::text::contains_str(i, "code.visualstudio.com") {
        config.silent_install_args = String::from_str(
            "/VERYSILENT /SUPPRESSMSGBOXES /MERGETASKS=\"desktopicon,!associatewithfiles\"",
        );
    } else if crate::text::contains_str(i, "cursor") || crate::text::contains_str(i, "cursor.com") {
        config.silent_install_args = String::from_str("/VERYSILENT /SUPPRESSMSGBOXES");
    }
}

/// The default profiles are written once: applying them again changes
/// nothing.
pub proof fn law_default_silent_args_idempotent(c: ConfigView)
    ensures
        silent_args_with_defaults(with_silent_args(c, silent_args_with_defaults(c)))
            == silent_args_with_defaults(c),
{
    reveal_strlit("/VERYSILENT /SUPPRESSMSGBOXES /MERGETASKS=\"desktopicon,!associatewithfiles\"");
    reveal_strlit("/VERYSILENT /SUPPRESSMSGBOXES");
    let d = with_silent_args(c, silent_args_with_defaults(c));
    if silent_args_with_defaults(c) != c.silent_install_args {
        let a = silent_args_with_defaults(c);
        assert(a == vscode_silent_args() || a == cursor_silent_args());
        assert(a[0] == '/');
        assert(!crate::text::is_white_space(a[0]));
        assert(trim(a).len() > 0) by {
            assert(crate::text::trim_start_by(a, CharSet::WhiteSpace) == a);
            lemma_trim_end_keeps_nonempty(a);
        }
    }
}

/// Arguments the user wrote are never replaced by defaults.
pub proof fn law_user_silent_args_kept(c: ConfigView)
    requires
        trim(c.silent_install_args).len() > 0,
    ensures
        silent_args_with_defaults(c) == c.silent_install_args,
{
}

proof fn lemma_trim_end_keeps_nonempty(a: Seq<char>)
    requires
        a.len() > 0,
        !crate::text::is_white_space(a[0]),
    ensures
        trim_end_by(a, CharSet::WhiteSpace).len() > 0,
    decreases a.len(),
{
    if a.len() > 1 && crate::text::is_white_space(a.last()) {
        assert(a.drop_last()[0] == a[0]);
        lemma_trim_end_keeps_nonempty(a.drop_last());
    }
}

/// Fills in default silent-install arguments for every stored source and
/// tells whether any changed (the caller then saves the list).
pub fn ensure_default_silent_install_profiles(list: &mut Vec<CustomSoftwareConfig>) -> (changed:
    bool)
    ensures
        configs_view(final(list)@) == configs_view(old(list)@).map_values(
            |c: ConfigView| with_silent_args(c, silent_args_with_defaults(c)),
        ),
        changed == exists|i: int|
            0 <= i < old(list)@.len() && silent_args_with_defaults(#[trigger] old(list)@[i]@)
                != old(list)@[i]@.silent_install_args,
{
    let ghost orig = old(list)@;
    let mut changed = false;
    let mut i: usize = 0;
    while i < list.len()
        invariant
            i <= list@.len(),
            list@.len() == orig.len(),
            forall|j: int|
                0 <= j < i ==> (#[trigger] list@[j])@ == with_silent_args(
                    orig[j]@,
                    silent_args_with_defaults(orig[j]@),
                ),
            forall|j: int| i <= j < list@.len() ==> (#[trigger] list@[j]) == orig[j],
            changed == exists|j: int|
                0 <= j < i && silent_args_with_defaults(#[trigger] orig[j]@)
                    != orig[j]@.silent_install_args,
        decreases list@.len() - i,
    {
        let mut item = list[i].duplicate();
        apply_default_silent_install_args(&mut item);
        if !crate::text::str_eq(item.silent_install_args.as_str(), list[i].silent_install_args.as_str()) {
            changed = true;
        }
        list.set(i, item);
        i = i + 1;
    }
    assert(configs_view(list@) =~= configs_view(orig).map_values(
        |c: ConfigView| with_silent_args(c, silent_args_with_defaults(c)),
    ));
    changed
}

// ---------------------------------------------------------------------------
// Targets
// ---------------------------------------------------------------------------
/// The catalogue entry of a custom source.
pub open spec fn custom_target_view(c: ConfigView) -> TargetView {
    TargetView {
        id: c.id,
        display_name: c.display_name,
        source: if c.source_kind == "direct"@ {
            SourceView::DirectDownload {
                url: c.download_url,
                page_url: c.page_url,
                asset_match: c.asset_match,
                version: c.version,
                file_name: c.file_name,
            }
        } else {
            SourceView::Github(c.repo)
        },
        install_kind: "download"@,
        ocr_install: false,
        silent_install_args: silent_args_with_defaults(c),
        icon_path: c.icon_path,
    }
}

pub open spec fn custom_targets_view(list: Seq<ConfigView>) -> Seq<TargetView> {
    list.map_values(|c: ConfigView| custom_target_view(c))
}

/// The catalogue entries of the stored custom sources, in order.
pub fn custom_software_targets(list: &[CustomSoftwareConfig]) -> (res: Vec<SoftwareTarget>)
    ensures
        crate::software::targets_view(res@) == custom_targets_view(configs_view(list@)),
{
    let mut out: Vec<SoftwareTarget> = Vec::new();
    let mut i: usize = 0;
    while i < list.len()
        invariant
            i <= list@.len(),
            out@.len() == i,
            forall|j: int|
                0 <= j < i ==> (#[trigger] out@[j])@ == custom_target_view(list@[j]@),
        decreases list@.len() - i,
    {
        let mut c = list[i].duplicate();
        apply_default_silent_install_args(&mut c);
        let direct = crate::text::str_eq(c.source_kind.as_str(), "direct");
        let source = if direct {
            SoftwareSource::DirectDownload {
                url: c.download_url,
                page_url: c.page_url,
                asset_match: c.asset_match,
                version: c.version,
                file_name: c.file_name,
            }
        } else {
            SoftwareSource::Github(c.repo)
        };
        out.push(
            SoftwareTarget {
                id: c.id,
                display_name: c.display_name,
                source,
                install_kind: String::from_str("download"),
                ocr_install: false,
                silent_install_args: c.silent_install_args,
                icon_path: c.icon_path,
            },
        );
        i = i + 1;
    }
    assert(crate::software::targets_view(out@) =~= custom_targets_view(configs_view(list@)));
    out
}

// ---------------------------------------------------------------------------
// Where a source's icon comes from
// ---------------------------------------------------------------------------
/// The next step of an icon lookup.
pub enum IconLookup {
    /// The icon's address is known.
    Found(String),
    /// The icon is declared by this page, which has to be fetched.
    FetchPage(String),
}

pub enum IconLookupView {
    Found(Seq<char>),
    FetchPage(Seq<char>),
}

impl View for IconLookup {
    type V = IconLookupView;

    open spec fn view(&self) -> IconLookupView {
        match self {
            IconLookup::Found(u) => IconLookupView::Found(u@),
            IconLookup::FetchPage(u) => IconLookupView::FetchPage(u@),
        }
    }
}

/// The repository owner shown by a GitHub source.
pub open spec fn repo_owner(c: ConfigView) -> Seq<char> {
    let repo = match normalized_repo(c.repo) {
        Some(r) => r,
        None => c.repo,
    };
    trim(crate::text::split_on(repo, CharSet::Slash)[0])
}

/// The page whose icon a non-GitHub source uses: its page, else its download
/// address.
pub open spec fn icon_page(c: ConfigView) -> Seq<char> {
    if trim(c.page_url).len() > 0 {
        trim(c.page_url)
    } else {
        trim(c.download_url)
    }
}

/// How the icon of a source is found: the owner's GitHub avatar, Cursor's
/// favicon, the site favicon of a download address, or the icons that the
/// source's page declares.
pub open spec fn icon_lookup_spec(c: ConfigView) -> Result<IconLookupView, Seq<char>> {
    if c.source_kind == "github"@ && repo_owner(c).len() > 0 {
        Ok(IconLookupView::Found("https://github.com/"@ + repo_owner(c) + ".png?size=128"@))
    } else if icon_page(c).len() == 0 {
        Err("没有可用于获取图标的官网地址"@)
    } else {
        let page_url = http_url(icon_page(c));
        if is_cursor_url(page_url) {
            Ok(IconLookupView::Found("https://cursor.com/favicon.ico"@))
        } else if is_download_url(page_url) {
            match favicon_for(page_url) {
                Ok(u) => Ok(IconLookupView::Found(u)),
                Err(e) => Err(e),
            }
        } else {
            Ok(IconLookupView::FetchPage(page_url))
        }
    }
}

/// Decides where the icon of a source comes from.  Cursor's update API
/// redirects to a large installer, so it is never read as a page.
pub fn resolve_icon_url(config: &CustomSoftwareConfig) -> (res: Result<IconLookup, String>)
    ensures
        match res {
            Ok(l) => icon_lookup_spec(config@) == Ok::<IconLookupView, Seq<char>>(l@),
            Err(e) => icon_lookup_spec(config@) == Err::<IconLookupView, Seq<char>>(e@),
        },
{
    if crate::text::str_eq(config.source_kind.as_str(), "github") {
        let repo = match normalize_github_repo(config.repo.as_str()) {
            Some(r) => r,
            None => config.repo.clone(),
        };
        let rc = chars_of(repo.as_str());
        let pieces = crate::text::split_exec(rc.as_slice(), CharSet::Slash);
        assert(crate::text::views(pieces@)[0] == pieces@[0]@);
        let owner = trim_chars(pieces[0].as_slice(), CharSet::WhiteSpace);
        assert(owner@ == repo_owner(config@));
        if owner.len() > 0 {
            let mut out = chars_of("https://github.com/");
            push_all(&mut out, owner.as_slice());
            push_str(&mut out, ".png?size=128");
            return Ok(IconLookup::Found(string_from_chars(out.as_slice())));
        }
    }
    let page = if !crate::text::is_blank(config.page_url.as_str()) {
        crate::text::trim_string(config.page_url.as_str())
    } else {
        crate::text::trim_string(config.download_url.as_str())
    };
    if page.as_str().unicode_len() == 0 {
        return Err(String::from_str("没有可用于获取图标的官网地址"));
    }
    let page_url = match normalize_http_url(page.as_str()) {
        Ok(u) => u,
        Err(e) => return Err(e),
    };
    proof {
        crate::text::lemma_trim_idempotent(icon_page(config@));
    }
    if is_cursor_official_source(page_url.as_str()) {
        return Ok(IconLookup::Found(String::from_str("https://cursor.com/favicon.ico")));
    }
    if is_probably_download_url(page_url.as_str()) {
        return match favicon_url_for_origin(page_url.as_str()) {
            Ok(u) => Ok(IconLookup::Found(u)),
            Err(e) => Err(e),
        };
    }
    Ok(IconLookup::FetchPage(page_url))
}

/// The icon declared by a fetched page, or the site favicon when it
/// declares none.
pub open spec fn icon_from_page_spec(html: Seq<char>, page_url: Seq<char>) -> Result<
    Seq<char>,
    Seq<char>,
> {
    match page_icon(html, page_url) {
        Ok(u) => Ok(u),
        Err(_) => favicon_for(page_url),
    }
}

pub fn icon_url_from_page(html: &str, page_url: &str) -> (res: Result<String, String>)
    ensures
        match res {
            Ok(u) => icon_from_page_spec(html@, page_url@) == Ok::<Seq<char>, Seq<char>>(u@),
            Err(e) => icon_from_page_spec(html@, page_url@) == Err::<Seq<char>, Seq<char>>(e@),
        },
{
    match find_icon_link(html, page_url) {
        Ok(u) => Ok(u),
        Err(_) => favicon_url_for_origin(page_url),
    }
}

// ---------------------------------------------------------------------------
// Adding a source
// ---------------------------------------------------------------------------
/// The display name guessed for a source the user left unnamed.
pub open spec fn source_display_name(c: ConfigView) -> Option<Seq<char>> {
    if is_cursor_url(c.download_url) || is_cursor_url(c.page_url) {
        Some("Cursor"@)
    } else if trim(c.file_name).len() > 0 {
        display_name_of_file(c.file_name)
    } else {
        match url_file_name(c.download_url) {
            Some(n) => display_name_of_file(n),
            None => None,
        }
    }
}

pub fn display_name_from_custom_source(config: &CustomSoftwareConfig) -> (res: Option<String>)
    ensures
        opt_string_view(res) == source_display_name(config@),
{
    if is_cursor_official_source(config.download_url.as_str()) || is_cursor_official_source(
        config.page_url.as_str(),
    ) {
        return Some(String::from_str("Cursor"));
    }
    if !crate::text::is_blank(config.file_name.as_str()) {
        return display_name_from_file_name(config.file_name.as_str());
    }
    match file_name_from_url(config.download_url.as_str()) {
        Some(name) => display_name_from_file_name(name.as_str()),
        None => None,
    }
}

/// Every field trimmed but the source kind.
pub open spec fn trimmed_fields(c: ConfigView) -> ConfigView {
    ConfigView {
        id: trim(c.id),
        display_name: trim(c.display_name),
        source_kind: c.source_kind,
        repo: trim(c.repo),
        asset_match: trim(c.asset_match),
        exe_match: trim(c.exe_match),
        download_url: trim(c.download_url),
        page_url: trim(c.page_url),
        version: trim(c.version),
        file_name: trim(c.file_name),
        silent_install_args: trim(c.silent_install_args),
        icon_path: trim(c.icon_path),
    }
}

/// A GitHub source's repository read as `owner/repo` where possible.
pub open spec fn with_normalized_repo(c: ConfigView) -> ConfigView {
    if c.source_kind == "github"@ {
        match normalized_repo(c.repo) {
            Some(r) => ConfigView { repo: r, ..c },
            None => c,
        }
    } else {
        c
    }
}

/// An unnamed source named after its download.
pub open spec fn with_display_name(c: ConfigView) -> ConfigView {
    if c.display_name.len() == 0 {
        ConfigView {
            display_name: match source_display_name(c) {
                Some(n) => n,
                None => "自定义下载源"@,
            },
            ..c
        }
    } else {
        c
    }
}

/// A source without an id given a fresh one.
pub open spec fn with_fresh_id(c: ConfigView, list: Seq<ConfigView>) -> ConfigView {
    if c.id.len() == 0 {
        ConfigView { id: unique_id(slug(c.display_name), used_ids(list)), ..c }
    } else {
        c
    }
}

/// A source as it is stored: trimmed, repository normalised, named, given
/// an id, and given default silent-install arguments.
pub open spec fn prepared_config(c: ConfigView, list: Seq<ConfigView>) -> ConfigView {
    let p = with_fresh_id(with_display_name(with_normalized_repo(trimmed_fields(c))), list);
    with_silent_args(p, silent_args_with_defaults(p))
}

/// The list with `c` replacing the first entry with its id, or appended.
pub open spec fn upsert(list: Seq<ConfigView>, c: ConfigView) -> Seq<ConfigView> {
    match first_with_id(list, c.id) {
        Some(k) => list.update(k, c),
        None => list.push(c),
    }
}

/// A stored source is found again by its id: reading a source back after
/// storing it gives the stored source.
pub proof fn law_stored_source_is_found(list: Seq<ConfigView>, c: ConfigView)
    ensures
        first_with_id(upsert(list, c), c.id) is Some,
        upsert(list, c)[first_with_id(upsert(list, c), c.id)->0] == c,
{
    lemma_first_with_id_found(list, c.id);
    let u = upsert(list, c);
    match first_with_id(list, c.id) {
        Some(k) => {
            assert forall|j: int| 0 <= j < k implies u[j].id != c.id by {
                assert(u[j] == list[j]);
            }
            lemma_first_with_id(u, c.id, k);
        },
        None => {
            assert forall|j: int| 0 <= j < list.len() implies u[j].id != c.id by {
                assert(u[j] == list[j]);
            }
            lemma_first_with_id(u, c.id, list.len() as int);
        },
    }
}

/// Storing a source keeps every other stored source and adds at most one.
pub proof fn law_store_keeps_others(list: Seq<ConfigView>, c: ConfigView, j: int)
    requires
        0 <= j < list.len(),
        list[j].id != c.id,
    ensures
        upsert(list, c)[j] == list[j],
        upsert(list, c).len() <= list.len() + 1,
{
    lemma_first_with_id_found(list, c.id);
}

/// After a source is removed, no source with its id is left.
pub proof fn law_removed_source_is_gone(list: Seq<ConfigView>, id: Seq<char>)
    ensures
        first_with_id(list.filter(|c: ConfigView| c.id != id), id) is None,
{
    let kept = list.filter(|c: ConfigView| c.id != id);
    assert forall|j: int| 0 <= j < kept.len() implies kept[j].id != id by {
        assert((|c: ConfigView| c.id != id)(kept[j]));
    }
    lemma_first_with_id(kept, id, kept.len() as int);
}

fn trim_field(s: &String) -> (res: String)
    ensures
        res@ == trim(s@),
{
    crate::text::trim_string(s.as_str())
}

/// Stores a new or edited source.  Returns the id whose icon should be
/// fetched next (when the source has no icon), or why the source was
/// refused; a refused source leaves the list as it was.
pub fn add_custom_software(list: &mut Vec<CustomSoftwareConfig>, config: CustomSoftwareConfig) -> (res:
    Result<Option<String>, String>)
    ensures
        ({
            let p = prepared_config(config@, configs_view(old(list)@));
            match validation_error(p) {
                Some(e) => res matches Err(m) && m@ == e && final(list)@ == old(list)@,
                None => configs_view(final(list)@) == upsert(configs_view(old(list)@), p) && (
                if p.icon_path.len() == 0 {
                    res matches Ok(Some(id)) && id@ == p.id
                } else {
                    res matches Ok(None)
                }),
            }
        }),
{
    let ghost lv = configs_view(list@);
    let mut c = CustomSoftwareConfig {
        id: trim_field(&config.id),
        display_name: trim_field(&config.display_name),
        source_kind: config.source_kind.clone(),
        repo: trim_field(&config.repo),
        asset_match: trim_field(&config.asset_match),
        exe_match: trim_field(&config.exe_match),
        download_url: trim_field(&config.download_url),
        page_url: trim_field(&config.page_url),
        version: trim_field(&config.version),
        file_name: trim_field(&config.file_name),
        silent_install_args: trim_field(&config.silent_install_args),
        icon_path: trim_field(&config.icon_path),
    };
    assert(c@ == trimmed_fields(config@));
    if crate::text::str_eq(c.source_kind.as_str(), "github") {
        match normalize_github_repo(c.repo.as_str()) {
            Some(r) => {
                c.repo = r;
            },
            None => {},
        }
    }
    assert(c@ == with_normalized_repo(trimmed_fields(config@)));
    if c.display_name.as_str().unicode_len() == 0 {
        c.display_name = match display_name_from_custom_source(&c) {
            Some(n) => n,
            None => String::from_str("自定义下载源"),
        };
    }
    assert(c@ == with_display_name(with_normalized_repo(trimmed_fields(config@))));
    if c.id.as_str().unicode_len() == 0 {
        c.id = generate_unique_custom_id(c.display_name.as_str(), list.as_slice());
    }
    assert(c@ == with_fresh_id(with_display_name(with_normalized_repo(trimmed_fields(config@))), lv));
    apply_default_silent_install_args(&mut c);
    assert(c@ == prepared_config(config@, lv));
    match validate_custom_software(&c) {
        Err(e) => return Err(e),
        Ok(()) => {},
    }
    let icon_id = c.id.clone();
    let should_fetch_icon = c.icon_path.as_str().unicode_len() == 0;
    let ghost cv = c@;
    match find_config_index(list.as_slice(), c.id.as_str()) {
        Some(pos) => {
            let ghost before = list@;
            list.set(pos, c);
            assert(configs_view(list@) =~= configs_view(before).update(pos as int, cv));
        },
        None => {
            let ghost before = list@;
            list.push(c);
            assert(configs_view(list@) =~= configs_view(before).push(cv));
        },
    }
    if should_fetch_icon {
        Ok(Some(icon_id))
    } else {
        Ok(None)
    }
}

} // verus!
