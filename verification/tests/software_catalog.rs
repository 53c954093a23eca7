use software_manager::custom_software::CustomSoftwareConfig;
use software_manager::software::{
    asset_matches, is_portable_target, preferred_main_exe, software_list, source_kind_for,
    SoftwareSource,
};

fn custom(id: &str, asset_match: &str, exe_match: &str) -> CustomSoftwareConfig {
    CustomSoftwareConfig {
        id: id.to_string(),
        display_name: id.to_string(),
        source_kind: "github".to_string(),
        repo: "o/r".to_string(),
        asset_match: asset_match.to_string(),
        exe_match: exe_match.to_string(),
        download_url: String::new(),
        page_url: String::new(),
        version: String::new(),
        file_name: String::new(),
        silent_install_args: String::new(),
        icon_path: String::new(),
    }
}

#[test]
fn builtin_programs_come_first() {
    let list = software_list(&[custom("tool", "x64", "tool.exe")]);
    let ids: Vec<&str> = list.iter().map(|t| t.id.as_str()).collect();
    assert_eq!(
        ids,
        vec!["stranslate", "quickclipboard", "leagueakari", "wegame", "amd-adrenalin", "chatgpt", "tool"]
    );
    assert_eq!(source_kind_for(&list[0]), "github");
    assert_eq!(source_kind_for(&list[3]), "official");
    assert!(list[3].ocr_install);
    assert_eq!(list[4].install_kind, "installer");
    match &list[6].source {
        SoftwareSource::Github(r) => assert_eq!(r, "o/r"),
        _ => panic!("custom github source"),
    }
}

#[test]
fn asset_matchers_need_every_word() {
    assert!(asset_matches("tool-x64-portable.zip", "x64, portable"));
    assert!(asset_matches("tool-x64-portable.zip", " X64 | Portable "));
    assert!(!asset_matches("tool-x64.zip", "x64 portable"));
    assert!(!asset_matches("tool-x64.zip", " , ; "));
}

#[test]
fn portable_builds_per_program() {
    let list = vec![custom("tool", "x64 zip", "tool.exe")];
    assert!(is_portable_target("stranslate", "STranslate-win-portable.zip", &list));
    assert!(!is_portable_target("stranslate", "STranslate-win.zip", &list));
    assert!(is_portable_target("quickclipboard", "QuickClipboard_Portable.EXE", &list));
    assert!(is_portable_target("leagueakari", "LeagueAkari-1.0-win.7z", &list));
    assert!(is_portable_target("tool", "Tool-X64.zip", &list));
    assert!(!is_portable_target("tool", "Tool-arm64.zip", &list));
    assert!(!is_portable_target("unknown", "x64.zip", &list));
}

#[test]
fn preferred_executables() {
    let list = vec![custom("tool", "x64", "tool.exe")];
    assert_eq!(preferred_main_exe("stranslate", &list), Some("STranslate.exe".to_string()));
    assert_eq!(preferred_main_exe("amd-adrenalin", &list), Some("RadeonSoftware.exe".to_string()));
    assert_eq!(preferred_main_exe("tool", &list), Some("tool.exe".to_string()));
    assert_eq!(preferred_main_exe("quickclipboard", &list), None);
}
