use software_manager::config::{
    app_install_paths, default_install_base, default_install_base_in, config_file, get_install_base, get_install_path_settings, join_path_str,
    package_cache_dir, package_cache_info, package_cache_path, reset_install_base,
    safe_file_name, safe_path_segment, set_install_base, valid_cached_file,
    is_valid_cached_package, AppConfig,
};

#[test]
fn cache_path_joins_safe_segments() {
    assert_eq!(
        package_cache_path("C:\\data", "my app", "1.0", "setup.exe"),
        "C:\\data\\packages\\my app\\1.0\\setup.exe"
    );
    assert_eq!(
        package_cache_dir("C:\\data\\", "a:b", " v2 "),
        "C:\\data\\packages\\a_b\\v2"
    );
}

#[test]
fn safe_segments_replace_reserved_characters() {
    assert_eq!(safe_path_segment("a<b>|c"), "a_b__c");
    assert_eq!(safe_path_segment("  ..  "), "unknown");
    assert_eq!(safe_path_segment(".hidden."), "hidden");
    assert_eq!(safe_file_name("downloads/sub/x.zip"), "x.zip");
    assert_eq!(safe_file_name(""), "package.bin");
    assert_eq!(safe_file_name("C:\\temp\\..\\"), "package.bin");
}

#[test]
fn joining_a_rooted_path_replaces_the_base() {
    assert_eq!(join_path_str("C:\\a", "D:\\b"), "D:\\b");
    assert_eq!(join_path_str("C:\\a\\", "b"), "C:\\a\\b");
    assert_eq!(join_path_str("", "b"), "b");
    assert_eq!(config_file("C:\\data"), "C:\\data\\config.json");
}

#[test]
fn joining_keeps_the_prefix_of_the_base() {
    assert_eq!(join_path_str("C:\\a", "\\x"), "C:\\x");
    assert_eq!(join_path_str("C:", "x"), "C:x");
    assert_eq!(join_path_str("\\\\srv\\share\\a", "/x"), "\\\\srv\\share/x");
    assert_eq!(join_path_str("\\\\srv\\share", "x"), "\\\\srv\\share\\x");
    assert_eq!(join_path_str("C:\\a", "\\\\srv\\sh"), "\\\\srv\\sh");
    assert_eq!(join_path_str("C:\\a", "1:x"), "C:\\a\\1:x");
    assert_eq!(join_path_str("C:\\a", ""), "C:\\a\\");
    assert_eq!(join_path_str("\\\\", "x"), "\\\\x");
}

#[test]
fn file_names_skip_the_share_prefix() {
    assert_eq!(safe_file_name("\\\\srv\\share"), "package.bin");
    assert_eq!(safe_file_name("\\\\srv\\share\\tool.exe"), "tool.exe");
    assert_eq!(safe_file_name("D:setup.msi"), "setup.msi");
}

#[test]
fn install_base_reads_back_what_was_written() {
    let mut config = AppConfig::new();
    assert_eq!(get_install_base(&config, "C:\\Apps"), "C:\\Apps");
    assert_eq!(set_install_base(&mut config, "   "), Err("安装路径不能为空".to_string()));
    assert!(config.install_base.is_none());
    assert_eq!(set_install_base(&mut config, "  D:\\Tools  "), Ok(()));
    assert_eq!(get_install_base(&config, "C:\\Apps"), "D:\\Tools");
    let settings = get_install_path_settings(&config, "C:\\Apps");
    assert_eq!(settings.default_base, "C:\\Apps");
    assert_eq!(settings.current_base, "D:\\Tools");
    assert_eq!(reset_install_base(&mut config, "C:\\Apps"), "C:\\Apps");
    assert_eq!(get_install_base(&config, "C:\\Apps"), "C:\\Apps");
}

#[test]
fn empty_configured_base_falls_back_to_default() {
    let config = AppConfig { install_base: Some(String::new()) };
    assert_eq!(get_install_base(&config, "C:\\Apps"), "C:\\Apps");
}

#[test]
fn cached_package_checks_agree() {
    for (is_file, size, expected) in [
        (false, 10u64, 0u64),
        (true, 0, 0),
        (true, 10, 0),
        (true, 10, 10),
        (true, 10, 11),
    ] {
        let valid = is_valid_cached_package(is_file, size, expected);
        assert_eq!(valid_cached_file(is_file, size, expected).is_some(), valid);
    }
    assert!(is_valid_cached_package(true, 10, 0));
    assert!(!is_valid_cached_package(true, 10, 11));
    assert_eq!(valid_cached_file(true, 10, 10), Some(10));
}

#[test]
fn cache_info_reports_size() {
    let info = package_cache_info("C:\\p".to_string(), Some(5));
    assert!(info.cached);
    assert_eq!(info.size, 5);
    let info = package_cache_info("C:\\p".to_string(), None);
    assert!(!info.cached);
    assert_eq!(info.size, 0);
    assert_eq!(info.path, "C:\\p");
}

#[test]
fn install_paths_for_an_app() {
    let p = app_install_paths(
        "D:\\Apps",
        "C:\\data",
        Some("C:\\Users\\me\\Desktop"),
        "stranslate",
        "STranslate",
        "2.0",
        "STranslate.zip",
    );
    assert_eq!(p.install_dir, "D:\\Apps\\stranslate");
    assert_eq!(p.download_file, "D:\\Apps\\stranslate\\STranslate.zip");
    assert_eq!(p.package_file, "C:\\data\\packages\\stranslate\\2.0\\STranslate.zip");
    assert_eq!(p.shortcut, "C:\\Users\\me\\Desktop\\STranslate.lnk");
    let p = app_install_paths("D:\\Apps", "C:\\data", None, "x", "X", "1", "x.exe");
    assert_eq!(p.shortcut, "");
}

#[test]
fn default_install_base_prefers_local_data() {
    assert_eq!(
        default_install_base_in(Some("C:\\Users\\me\\AppData\\Local".to_string()), "D:\\Portable"),
        "C:\\Users\\me\\AppData\\Local\\software-manager\\apps"
    );
    assert_eq!(default_install_base_in(None, "D:\\Portable"), "D:\\Portable\\apps");
    let base = default_install_base("D:\\Portable");
    assert!(base.ends_with("apps"));
}
