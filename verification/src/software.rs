//! The software catalogue: built-in targets, custom targets, and the rules
//! that pick the portable asset and the main executable of each.

use vstd::prelude::*;

use crate::custom_software::{
    configs_view, custom_software_targets, custom_targets_view, find_config_index,
    first_with_id, ConfigView, CustomSoftwareConfig,
};
use crate::text::{chars_of, contains_seq, split_on, trim, unicode_lowercase, CharSet};

verus! {

pub struct SoftwareAsset {
    pub name: String,
    pub browser_download_url: String,
    pub size: u64,
}

pub struct SoftwareInfo {
    pub id: String,
    pub display_name: String,
    pub latest_version: String,
    pub release_url: String,
    pub published_at: String,
    pub portable: Option<SoftwareAsset>,
    pub install_kind: String,
    pub source_kind: String,
    pub ocr_install: bool,
    pub silent_install_args: String,
    pub icon_path: String,
}

/// Where a program's releases come from.
pub enum SoftwareSource {
    Github(String),
    DirectDownload {
        url: String,
        page_url: String,
        asset_match: String,
        version: String,
        file_name: String,
    },
    WegameOfficial,
    AmdAdrenalinOfficial,
    MicrosoftStore { product_id: String, package_name: String },
}

pub enum SourceView {
    Github(Seq<char>),
    DirectDownload {
        url: Seq<char>,
        page_url: Seq<char>,
        asset_match: Seq<char>,
        version: Seq<char>,
        file_name: Seq<char>,
    },
    WegameOfficial,
    AmdAdrenalinOfficial,
    MicrosoftStore { product_id: Seq<char>, package_name: Seq<char> },
}

impl View for SoftwareSource {
    type V = SourceView;

    open spec fn view(&self) -> SourceView {
        match self {
            SoftwareSource::Github(r) => SourceView::Github(r@),
            SoftwareSource::DirectDownload { url, page_url, asset_match, version, file_name } =>
                SourceView::DirectDownload {
                url: url@,
                page_url: page_url@,
                asset_match: asset_match@,
                version: version@,
                file_name: file_name@,
            },
            SoftwareSource::WegameOfficial => SourceView::WegameOfficial,
            SoftwareSource::AmdAdrenalinOfficial => SourceView::AmdAdrenalinOfficial,
            SoftwareSource::MicrosoftStore { product_id, package_name } =>
                SourceView::MicrosoftStore { product_id: product_id@, package_name: package_name@ },
        }
    }
}

/// A program the manager can install.
pub struct SoftwareTarget {
    pub id: String,
    pub display_name: String,
    pub source: SoftwareSource,
    pub install_kind: String,
    pub ocr_install: bool,
    pub silent_install_args: String,
    pub icon_path: String,
}

pub struct TargetView {
    pub id: Seq<char>,
    pub display_name: Seq<char>,
    pub source: SourceView,
    pub install_kind: Seq<char>,
    pub ocr_install: bool,
    pub silent_install_args: Seq<char>,
    pub icon_path: Seq<char>,
}

impl View for SoftwareTarget {
    type V = TargetView;

    open spec fn view(&self) -> TargetView {
        TargetView {
            id: self.id@,
            display_name: self.display_name@,
            source: self.source@,
            install_kind: self.install_kind@,
            ocr_install: self.ocr_install,
            silent_install_args: self.silent_install_args@,
            icon_path: self.icon_path@,
        }
    }
}

pub open spec fn targets_view(list: Seq<SoftwareTarget>) -> Seq<TargetView> {
    list.map_values(|t: SoftwareTarget| t@)
}

/// `github`, `official` or `store`, after the kind of a target's source.
pub open spec fn source_kind_of(source: SourceView) -> Seq<char> {
    match source {
        SourceView::Github(_) => "github"@,
        SourceView::MicrosoftStore { .. } => "store"@,
        _ => "official"@,
    }
}

pub fn source_kind_for(target: &SoftwareTarget) -> (res: &'static str)
    ensures
        res@ == source_kind_of(target.source@),
{
    match &target.source {
        SoftwareSource::Github(_) => "github",
        SoftwareSource::DirectDownload { .. }
        | SoftwareSource::WegameOfficial
        | SoftwareSource::AmdAdrenalinOfficial => "official",
        SoftwareSource::MicrosoftStore { .. } => "store",
    }
}

/// A target with no silent-install arguments and no custom icon.
pub open spec fn plain_target(
    id: Seq<char>,
    display_name: Seq<char>,
    source: SourceView,
    install_kind: Seq<char>,
    ocr_install: bool,
) -> TargetView {
    TargetView {
        id,
        display_name,
        source,
        install_kind,
        ocr_install,
        silent_install_args: Seq::<char>::empty(),
        icon_path: Seq::<char>::empty(),
    }
}

/// The programs the manager knows without configuration.
pub open spec fn builtin_targets() -> Seq<TargetView> {
    seq![
        plain_target("stranslate"@, "STranslate"@, SourceView::Github("STranslate/STranslate"@), "portable"@, false),
        plain_target("quickclipboard"@, "QuickClipboard"@, SourceView::Github("mosheng1/QuickClipboard"@), "portable"@, false),
        plain_target("leagueakari"@, "LeagueAkari"@, SourceView::Github("LeagueAkari/LeagueAkari"@), "portable"@, false),
        plain_target("wegame"@, "WeGame"@, SourceView::WegameOfficial, "installer"@, true),
        plain_target("amd-adrenalin"@, "AMD Adrenalin Edition"@, SourceView::AmdAdrenalinOfficial, "installer"@, false),
        plain_target("chatgpt"@, "ChatGPT"@, SourceView::MicrosoftStore { product_id: "9PLM9XGG6VKS"@, package_name: "OpenAI.Codex"@ }, "store"@, false),
    ]
}

fn plain(
    id: &str,
    display_name: &str,
    source: SoftwareSource,
    install_kind: &str,
    ocr_install: bool,
) -> (res: SoftwareTarget)
    ensures
        res@ == plain_target(id@, display_name@, source@, install_kind@, ocr_install),
{
    SoftwareTarget {
        id: String::from_str(id),
        display_name: String::from_str(display_name),
        source,
        install_kind: String::from_str(install_kind),
        ocr_install,
        silent_install_args: String::new(),
        icon_path: String::new(),
    }
}

/// Every program the manager offers: the built-in ones, then the custom
/// sources in the order they are stored.
pub fn software_list(custom: &[CustomSoftwareConfig]) -> (res: Vec<SoftwareTarget>)
    ensures
        targets_view(res@) == builtin_targets() + custom_targets_view(configs_view(custom@)),
{
    let mut list: Vec<SoftwareTarget> = Vec::new();
    list.push(
        plain(
            "stranslate",
            "STranslate",
            SoftwareSource::Github(String::from_str("STranslate/STranslate")),
            "portable",
            false,
        ),
    );
    list.push(
        plain(
            "quickclipboard",
            "QuickClipboard",
            SoftwareSource::Github(String::from_str("mosheng1/QuickClipboard")),
            "portable",
            false,
        ),
    );
    list.push(
        plain(
            "leagueakari",
            "LeagueAkari",
            SoftwareSource::Github(String::from_str("LeagueAkari/LeagueAkari")),
            "portable",
            false,
        ),
    );
    list.push(plain("wegame", "WeGame", SoftwareSource::WegameOfficial, "installer", true));
    list.push(
        plain(
            "amd-adrenalin",
            "AMD Adrenalin Edition",
            SoftwareSource::AmdAdrenalinOfficial,
            "installer",
            false,
        ),
    );
    // The Start menu shows ChatGPT, but the AppX package is named OpenAI.Codex.
    list.push(
        plain(
            "chatgpt",
            "ChatGPT",
            SoftwareSource::MicrosoftStore {
                product_id: String::from_str("9PLM9XGG6VKS"),
                package_name: String::from_str("OpenAI.Codex"),
            },
            "store",
            false,
        ),
    );
    assert(targets_view(list@) =~= builtin_targets());
    let mut extra = custom_software_targets(custom);
    let ghost a = list@;
    let ghost b = extra@;
    list.append(&mut extra);
    assert(targets_view(list@) =~= targets_view(a) + targets_view(b));
    list
}

// ---------------------------------------------------------------------------
// Portable assets
// ---------------------------------------------------------------------------
/// The lower-case search words of an asset matcher: its pieces between white
/// space, `,`, `;` and `|`.
pub open spec fn asset_tokens(matcher: Seq<char>) -> Seq<Seq<char>> {
    split_on(matcher, CharSet::AssetDelimiter).map_values(
        |t: Seq<char>| unicode_lowercase(trim(t)),
    )
}

/// A (lower-case) file name matches when the matcher has at least one word
/// and the name contains every word.
pub open spec fn asset_match_spec(lower_file_name: Seq<char>, matcher: Seq<char>) -> bool {
    let tokens = asset_tokens(matcher);
    &&& exists|i: int| 0 <= i < tokens.len() && (#[trigger] tokens[i]).len() > 0
    &&& forall|i: int|
        0 <= i < tokens.len() && (#[trigger] tokens[i]).len() > 0 ==> contains_seq(
            lower_file_name,
            tokens[i],
        )
}

pub fn asset_matches(lower_file_name: &str, matcher: &str) -> (res: bool)
    ensures
        res == asset_match_spec(lower_file_name@, matcher@),
{
    let name = chars_of(lower_file_name);
    let m = chars_of(matcher);
    let pieces = crate::text::split_exec(m.as_slice(), CharSet::AssetDelimiter);
    let ghost tokens = asset_tokens(matcher@);
    let mut any = false;
    let mut i: usize = 0;
    while i < pieces.len()
        invariant
            i <= pieces@.len(),
            m@ == matcher@,
            name@ == lower_file_name@,
            crate::text::views(pieces@) == split_on(m@, CharSet::AssetDelimiter),
            tokens == asset_tokens(matcher@),
            tokens.len() == pieces@.len(),
            any == exists|j: int| 0 <= j < i && (#[trigger] tokens[j]).len() > 0,
            forall|j: int|
                0 <= j < i && (#[trigger] tokens[j]).len() > 0 ==> contains_seq(name@, tokens[j]),
        decreases pieces@.len() - i,
    {
        let t = crate::text::trim_chars(pieces[i].as_slice(), CharSet::WhiteSpace);
        let token = crate::text::lowercase_chars(t.as_slice());
        assert(token@ == tokens[i as int]);
        if token.len() > 0 {
            if !crate::text::contains(name.as_slice(), token.as_slice()) {
                return false;
            }
            any = true;
        }
        i = i + 1;
    }
    any
}

/// Whether a release asset is the portable build to download for `id`.
pub open spec fn portable_target_spec(id: Seq<char>, file_name: Seq<char>, custom: Seq<ConfigView>) -> bool {
    let lower = unicode_lowercase(file_name);
    if id == "stranslate"@ {
        lower == "stranslate-win-portable.zip"@
    } else if id == "quickclipboard"@ {
        contains_seq(lower, "portable"@) && ".exe"@.is_suffix_of(lower)
    } else if id == "leagueakari"@ {
        "-win.7z"@.is_suffix_of(lower)
    } else {
        match first_with_id(custom, id) {
            Some(k) => asset_match_spec(lower, custom[k].asset_match),
            None => false,
        }
    }
}

/// The built-in programs take one kind of asset each, whatever the case of
/// its name: STranslate exactly `stranslate-win-portable.zip`, QuickClipboard
/// a portable `.exe` (its name holds `portable` and ends in `.exe`), and
/// LeagueAkari an archive ending in `-win.7z`.
pub proof fn law_builtin_portable_assets(file_name: Seq<char>, custom: Seq<ConfigView>)
    ensures
        portable_target_spec("stranslate"@, file_name, custom) <==> unicode_lowercase(file_name)
            == "stranslate-win-portable.zip"@,
        portable_target_spec("quickclipboard"@, file_name, custom) <==> (contains_seq(
            unicode_lowercase(file_name),
            "portable"@,
        ) && ".exe"@.is_suffix_of(unicode_lowercase(file_name))),
        portable_target_spec("leagueakari"@, file_name, custom) <==> "-win.7z"@.is_suffix_of(
            unicode_lowercase(file_name),
        ),
{
    reveal_strlit("stranslate");
    reveal_strlit("quickclipboard");
    reveal_strlit("leagueakari");
    assert("quickclipboard"@[0] != "stranslate"@[0]);
    assert("leagueakari"@[0] != "stranslate"@[0]);
    assert("leagueakari"@[0] != "quickclipboard"@[0]);
}

pub fn is_portable_target(id: &str, file_name: &str, custom: &[CustomSoftwareConfig]) -> (res: bool)
    ensures
        res == portable_target_spec(id@, file_name@, configs_view(custom@)),
{
    let lower = crate::text::to_lowercase(file_name);
    let l = chars_of(lower.as_str());
    if crate::text::str_eq(id, "stranslate") {
        crate::text::eq_str(l.as_slice(), "stranslate-win-portable.zip")
    } else if crate::text::str_eq(id, "quickclipboard") {
        crate::text::contains_str(l.as_slice(), "portable") && crate::text::ends_with_str(
            l.as_slice(),
            ".exe",
        )
    } else if crate::text::str_eq(id, "leagueakari") {
        crate::text::ends_with_str(l.as_slice(), "-win.7z")
    } else {
        match find_config_index(custom, id) {
            Some(k) => asset_matches(lower.as_str(), custom[k].asset_match.as_str()),
            None => false,
        }
    }
}

/// The executable to start after unpacking, when it is known.
pub open spec fn preferred_exe_spec(id: Seq<char>, custom: Seq<ConfigView>) -> Option<Seq<char>> {
    if id == "stranslate"@ {
        Some("STranslate.exe"@)
    } else if id == "leagueakari"@ {
        Some("LeagueAkari.exe"@)
    } else if id == "wegame"@ {
        Some("wegame.exe"@)
    } else if id == "amd-adrenalin"@ {
        Some("RadeonSoftware.exe"@)
    } else {
        match first_with_id(custom, id) {
            Some(k) => Some(custom[k].exe_match),
            None => None,
        }
    }
}

pub fn preferred_main_exe(id: &str, custom: &[CustomSoftwareConfig]) -> (res: Option<String>)
    ensures
        crate::web::opt_string_view(res) == preferred_exe_spec(id@, configs_view(custom@)),
{
    if crate::text::str_eq(id, "stranslate") {
        Some(String::from_str("STranslate.exe"))
    } else if crate::text::str_eq(id, "leagueakari") {
        Some(String::from_str("LeagueAkari.exe"))
    } else if crate::text::str_eq(id, "wegame") {
        Some(String::from_str("wegame.exe"))
    } else if crate::text::str_eq(id, "amd-adrenalin") {
        Some(String::from_str("RadeonSoftware.exe"))
    } else {
        match find_config_index(custom, id) {
            Some(k) => Some(custom[k].exe_match.clone()),
            None => None,
        }
    }
}

} // verus!
