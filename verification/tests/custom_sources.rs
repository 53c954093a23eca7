use software_manager::custom_software::{
    absolutize_url, add_custom_software, apply_default_silent_install_args,
    clear_custom_software_icon, custom_icon_file_path, custom_software_config_path,
    custom_software_targets, display_name_from_custom_source, display_name_from_file_name,
    ensure_default_silent_install_profiles, extract_attr, favicon_url_for_origin,
    file_name_from_url, find_icon_link, generate_unique_custom_id, get_custom_software,
    icon_ext_from_content_type, icon_ext_from_url, icon_file_extension, icon_url_from_page,
    is_cursor_official_source, is_probably_download_url, missing_icon_ids,
    normalize_github_repo, normalize_http_url, remove_custom_software, resolve_icon_url,
    slugify_source_id, update_custom_icon_path, validate_custom_software, CustomSoftwareConfig,
    IconLookup,
};
use software_manager::software::SoftwareSource;

fn source(id: &str, name: &str, kind: &str) -> CustomSoftwareConfig {
    CustomSoftwareConfig {
        id: id.to_string(),
        display_name: name.to_string(),
        source_kind: kind.to_string(),
        repo: String::new(),
        asset_match: String::new(),
        exe_match: String::new(),
        download_url: String::new(),
        page_url: String::new(),
        version: String::new(),
        file_name: String::new(),
        silent_install_args: String::new(),
        icon_path: String::new(),
    }
}

fn error_of<T>(r: Result<T, String>) -> String {
    match r {
        Ok(_) => panic!("expected an error"),
        Err(e) => e,
    }
}

#[test]
fn slugs_keep_ascii_words() {
    assert_eq!(slugify_source_id("  My Cool App!! "), "my-cool-app");
    assert_eq!(slugify_source_id("   "), "source");
    assert_eq!(slugify_source_id("a__b"), "a__b");
    assert_eq!(slugify_source_id("--x--"), "x");
    assert_eq!(slugify_source_id("自定义下载源"), "source");
}

#[test]
fn generated_ids_avoid_reserved_and_used_ids() {
    assert_eq!(generate_unique_custom_id("Foo", &[]), "foo");
    assert_eq!(generate_unique_custom_id("WeGame", &[]), "wegame-2");
    let taken = vec![source("wegame-2", "x", "github")];
    assert_eq!(generate_unique_custom_id("WeGame", &taken), "wegame-3");
    assert_eq!(generate_unique_custom_id("winget", &[]), "winget-2");
}

#[test]
fn validation_reports_each_problem() {
    let mut c = source(" ", "Name", "github");
    assert_eq!(error_of(validate_custom_software(&c)), "ID 不能为空");
    c.id = "ok".into();
    c.display_name = "  ".into();
    assert_eq!(error_of(validate_custom_software(&c)), "显示名称不能为空");
    c.display_name = "Name".into();
    c.id = "a b".into();
    assert_eq!(error_of(validate_custom_software(&c)), "ID 只能包含英文、数字、短横线和下划线");
    c.id = "a-b_1".into();
    c.repo = "foo".into();
    assert_eq!(error_of(validate_custom_software(&c)), "GitHub 仓库格式应为 owner/repo");
    c.repo = "foo/bar".into();
    c.asset_match = "  ".into();
    assert_eq!(error_of(validate_custom_software(&c)), "GitHub 下载文件匹配不能为空");
    c.asset_match = "x64".into();
    assert!(validate_custom_software(&c).is_ok());
    let mut d = source("tool", "Tool", "direct");
    d.download_url = "ftp://a/b".into();
    assert_eq!(
        error_of(validate_custom_software(&d)),
        "直接下载地址必须以 http:// 或 https:// 开头"
    );
    d.download_url = "https://a/b.exe".into();
    assert!(validate_custom_software(&d).is_ok());
}

#[test]
fn github_repos_are_normalized() {
    assert_eq!(
        normalize_github_repo("https://github.com/owner/repo.git/"),
        Some("owner/repo".to_string())
    );
    assert_eq!(normalize_github_repo(" github.com/a/b/releases "), Some("a/b".to_string()));
    assert_eq!(normalize_github_repo("a//b"), Some("a/b".to_string()));
    assert_eq!(normalize_github_repo("repos/x"), None);
    assert_eq!(normalize_github_repo("onlyowner"), None);
    assert_eq!(normalize_github_repo("a:b/c"), None);
}

#[test]
fn display_names_come_from_file_names() {
    assert_eq!(
        display_name_from_file_name("VSCodeUserSetup-x64-1.90.2.exe"),
        Some("Vscodeusersetup".to_string())
    );
    assert_eq!(display_name_from_file_name("cursor-setup-win.exe"), Some("Cursor".to_string()));
    assert_eq!(display_name_from_file_name("my_tool-v2.zip"), Some("My Tool V2".to_string()));
    assert_eq!(display_name_from_file_name("setup.exe"), None);
    assert_eq!(file_name_from_url("https://x.com/a/b/file.zip?x=1"), Some("file.zip".to_string()));
    assert_eq!(file_name_from_url("https://x.com/a/"), None);
}

#[test]
fn display_name_of_a_source() {
    let mut c = source("", "", "direct");
    c.download_url = "https://downloads.cursor.com/x".into();
    assert_eq!(display_name_from_custom_source(&c), Some("Cursor".to_string()));
    let mut c = source("", "", "direct");
    c.file_name = "tool-setup.exe".into();
    c.download_url = "https://a.com/other-app.zip".into();
    assert_eq!(display_name_from_custom_source(&c), Some("Tool".to_string()));
    c.file_name = " ".into();
    assert_eq!(display_name_from_custom_source(&c), Some("Other App".to_string()));
}

#[test]
fn urls_are_made_absolute() {
    assert_eq!(normalize_http_url(" example.com "), Ok("https://example.com".to_string()));
    assert_eq!(normalize_http_url("http://a"), Ok("http://a".to_string()));
    assert_eq!(
        absolutize_url("/a.png", "https://h.com/x/y"),
        Some("https://h.com/a.png".to_string())
    );
    assert_eq!(
        absolutize_url("//cdn.com/i.png", "http://h.com"),
        Some("http://cdn.com/i.png".to_string())
    );
    assert_eq!(
        absolutize_url("rel.png", "https://h.com/x/y"),
        Some("https://h.com/x/rel.png".to_string())
    );
    assert_eq!(
        absolutize_url("https://o.com/i.png", "nonsense"),
        Some("https://o.com/i.png".to_string())
    );
    assert_eq!(absolutize_url("/a.png", "not a url"), None);
}

#[test]
fn favicons_live_at_the_origin() {
    assert_eq!(
        favicon_url_for_origin("https://a.com:8443/x/y?z"),
        Ok("https://a.com:8443/favicon.ico".to_string())
    );
    assert!(favicon_url_for_origin("notaurl").is_err());
}

#[test]
fn download_and_cursor_urls_are_recognised() {
    assert!(is_probably_download_url("https://a.com/X.EXE?y=1"));
    assert!(is_probably_download_url("https://a.com/app.AppImage"));
    assert!(!is_probably_download_url("https://a.com/page"));
    assert!(is_cursor_official_source("https://www.Cursor.com/download"));
    assert!(is_cursor_official_source("https://api2.cursor.sh/updates"));
    assert!(!is_cursor_official_source("https://notcursor.com"));
    assert!(!is_cursor_official_source("cursor.com"));
}

#[test]
fn icon_extensions() {
    assert_eq!(icon_ext_from_content_type("image/PNG"), Some("png"));
    assert_eq!(icon_ext_from_content_type("image/jpeg"), Some("jpg"));
    assert_eq!(icon_ext_from_content_type("image/svg+xml"), Some("svg"));
    assert_eq!(icon_ext_from_content_type("image/webp"), Some("webp"));
    assert_eq!(icon_ext_from_content_type("image/x-icon"), Some("ico"));
    assert_eq!(icon_ext_from_content_type("text/html"), None);
    assert_eq!(icon_ext_from_url("https://a/b.JPEG?x"), Some("jpg"));
    assert_eq!(icon_ext_from_url("https://a/b"), None);
    assert_eq!(icon_file_extension("", "https://a/b.svg"), "svg");
    assert_eq!(icon_file_extension("image/webp", "https://a/b.svg"), "webp");
    assert_eq!(icon_file_extension("", "https://a/b"), "png");
    assert_eq!(custom_icon_file_path("C:\\data", "My App", "png"), "C:\\data\\icons\\my-app.png");
    assert_eq!(custom_software_config_path("C:\\data"), "C:\\data\\custom_software.json");
}

#[test]
fn attributes_and_icon_links() {
    assert_eq!(
        extract_attr("<link rel=\"icon\" href='/x.ico'", "href"),
        Some("/x.ico".to_string())
    );
    assert_eq!(extract_attr("<link rel= \"icon\"", "rel"), Some("icon".to_string()));
    assert_eq!(extract_attr("<link rel=icon", "rel"), None);
    assert_eq!(
        find_icon_link("<p>no icons</p>", "https://e.com"),
        Err("官网页面没有声明图标".to_string())
    );
    assert_eq!(
        find_icon_link("<link rel=\"icon\" href=\"/a.ico\"><link rel=\"shortcut icon\" href=\"/b.ico\"><link rel=\"icon\" href=\"/c.ico\">", "https://e.com/p"),
        Ok("https://e.com/b.ico".to_string())
    );
    assert_eq!(
        icon_url_from_page("<html></html>", "https://e.com/p"),
        Ok("https://e.com/favicon.ico".to_string())
    );
}

#[test]
fn icon_lookup_per_source() {
    let mut g = source("g", "G", "github");
    g.repo = "https://github.com/owner/repo".into();
    match resolve_icon_url(&g) {
        Ok(IconLookup::Found(u)) => assert_eq!(u, "https://github.com/owner.png?size=128"),
        _ => panic!("github avatar"),
    }
    let mut c = source("c", "C", "direct");
    c.page_url = " cursor.com ".into();
    match resolve_icon_url(&c) {
        Ok(IconLookup::Found(u)) => assert_eq!(u, "https://cursor.com/favicon.ico"),
        _ => panic!("cursor favicon"),
    }
    let mut d = source("d", "D", "direct");
    d.download_url = "https://a.com/x/tool.exe".into();
    match resolve_icon_url(&d) {
        Ok(IconLookup::Found(u)) => assert_eq!(u, "https://a.com/favicon.ico"),
        _ => panic!("site favicon"),
    }
    d.page_url = "example.com/app".into();
    match resolve_icon_url(&d) {
        Ok(IconLookup::FetchPage(u)) => assert_eq!(u, "https://example.com/app"),
        _ => panic!("page to fetch"),
    }
    let e = source("e", "E", "direct");
    match resolve_icon_url(&e) {
        Err(m) => assert_eq!(m, "没有可用于获取图标的官网地址"),
        _ => panic!("no page"),
    }
}

#[test]
fn silent_arguments_for_known_installers() {
    let mut c = source("cursor", "Cursor", "direct");
    apply_default_silent_install_args(&mut c);
    assert_eq!(c.silent_install_args, "/VERYSILENT /SUPPRESSMSGBOXES");
    let mut user = source("code", "Visual Studio Code", "direct");
    user.silent_install_args = "/S".into();
    apply_default_silent_install_args(&mut user);
    assert_eq!(user.silent_install_args, "/S");
    let mut g = source("visual-studio-code", "Visual Studio Code", "github");
    apply_default_silent_install_args(&mut g);
    assert_eq!(g.silent_install_args, "");
}

#[test]
fn default_profiles_are_filled_once() {
    let mut list = vec![source("vs", "Visual Studio Code", "direct"), source("x", "X", "github")];
    assert!(ensure_default_silent_install_profiles(&mut list));
    assert_eq!(
        list[0].silent_install_args,
        r#"/VERYSILENT /SUPPRESSMSGBOXES /MERGETASKS="desktopicon,!associatewithfiles""#
    );
    assert_eq!(list[1].silent_install_args, "");
    assert!(!ensure_default_silent_install_profiles(&mut list));
}

#[test]
fn stored_sources_are_found_updated_and_removed() {
    let mut list = vec![source("a", "A", "github"), source("b", "B", "github")];
    assert_eq!(get_custom_software(&list, "b").map(|c| c.display_name), Ok("B".to_string()));
    assert_eq!(
        get_custom_software(&list, "z").map(|c| c.id),
        Err("自定义下载源不存在".to_string())
    );
    assert_eq!(update_custom_icon_path(&mut list, "b", "C:\\i.png"), Ok("C:\\i.png".to_string()));
    assert_eq!(list[1].icon_path, "C:\\i.png");
    assert_eq!(missing_icon_ids(&list), vec!["a".to_string()]);
    assert_eq!(clear_custom_software_icon(&mut list, "b"), Ok(()));
    assert_eq!(list[1].icon_path, "");
    assert_eq!(clear_custom_software_icon(&mut list, "z"), Err("自定义下载源不存在".to_string()));
    remove_custom_software(&mut list, "a");
    assert_eq!(list.len(), 1);
    assert_eq!(list[0].id, "b");
}

#[test]
fn targets_follow_the_source_kind() {
    let mut d = source("d", "D", "direct");
    d.download_url = "https://a.com/d.exe".into();
    let mut g = source("g", "G", "github");
    g.repo = "o/r".into();
    let targets = custom_software_targets(&[d, g]);
    assert_eq!(targets.len(), 2);
    match &targets[0].source {
        SoftwareSource::DirectDownload { url, .. } => assert_eq!(url, "https://a.com/d.exe"),
        _ => panic!("direct source"),
    }
    match &targets[1].source {
        SoftwareSource::Github(r) => assert_eq!(r, "o/r"),
        _ => panic!("github source"),
    }
    assert_eq!(targets[0].install_kind, "download");
    assert!(!targets[1].ocr_install);
}

#[test]
fn adding_a_source_names_and_stores_it() {
    let mut list: Vec<CustomSoftwareConfig> = Vec::new();
    let mut c = source(" ", " ", "github");
    c.repo = " https://github.com/a/b ".into();
    c.asset_match = " x64 ".into();
    assert_eq!(add_custom_software(&mut list, c), Ok(Some("source".to_string())));
    assert_eq!(list.len(), 1);
    assert_eq!(list[0].display_name, "自定义下载源");
    assert_eq!(list[0].repo, "a/b");
    assert_eq!(list[0].asset_match, "x64");

    let mut again = source("source", "Renamed", "github");
    again.repo = "a/b".into();
    again.asset_match = "x64".into();
    again.icon_path = "C:\\i.png".into();
    assert_eq!(add_custom_software(&mut list, again), Ok(None));
    assert_eq!(list.len(), 1);
    assert_eq!(list[0].display_name, "Renamed");

    let mut bad = source("bad", "Bad", "direct");
    bad.download_url = "a.com".into();
    assert_eq!(
        add_custom_software(&mut list, bad),
        Err("直接下载地址必须以 http:// 或 https:// 开头".to_string())
    );
    assert_eq!(list.len(), 1);
}

#[test]
fn stored_sources_read_back_and_removed_sources_are_gone() {
    let mut list = vec![source("a", "A", "github")];
    let mut c = source("tool", "Tool", "direct");
    c.download_url = "https://a.com/tool.exe".into();
    assert_eq!(add_custom_software(&mut list, c), Ok(Some("tool".to_string())));
    match get_custom_software(&list, "tool") {
        Ok(found) => {
            assert_eq!(found.display_name, "Tool");
            assert_eq!(found.download_url, "https://a.com/tool.exe");
        }
        Err(e) => panic!("{e}"),
    }
    assert_eq!(list[0].id, "a");
    remove_custom_software(&mut list, "tool");
    assert_eq!(
        get_custom_software(&list, "tool").map(|c| c.id),
        Err("自定义下载源不存在".to_string())
    );
}
