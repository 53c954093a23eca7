use software_manager::custom_software::CustomSoftwareConfig;
use software_manager::installer::{
    amd_uninstall_command, amd_uninstall_result, best_candidate, cached_result,
    common_amd_exe_paths, common_wegame_exe_paths, display_name_for_id, elevated_uninstall_script,
    exe_name_matches, find_main_exe, installed_result, is_exe_candidate, is_helper_exe,
    is_wegame_entry, named_exe_from_pathish, package_kind, package_temp_path, preferred_exe_path,
    shortcut_path_at, shortcut_path_for_id, shortcut_script, size_mismatch_message,
    uninstall_command_text, uninstall_launch, uninstall_program, uninstall_route,
    uninstalled_result, wegame_uninstall_result, wegame_uninstall_step, ExeCandidate, PackageKind,
    UninstallEntry, UninstallLaunch, UninstallRoute, WegameUninstall,
};
use software_manager::config::package_cache_path;
use software_manager::ocr_install::{installer_launched_result, resolve_wegame_package};

fn strings(v: &[&str]) -> Vec<String> {
    v.iter().map(|s| s.to_string()).collect()
}

fn entry(name: Option<&str>, uninstall: Option<&str>, quiet: Option<&str>) -> UninstallEntry {
    UninstallEntry {
        display_name: name.map(str::to_string),
        display_icon: None,
        install_location: None,
        uninstall_string: uninstall.map(str::to_string),
        quiet_uninstall_string: quiet.map(str::to_string),
    }
}

fn cand(depth: usize, size: u64, path: &str) -> ExeCandidate {
    ExeCandidate { depth, size, path: path.to_string() }
}

#[test]
fn package_kinds_by_extension() {
    assert_eq!(package_kind("a.zip"), Ok(PackageKind::Zip));
    assert_eq!(package_kind("a.7z"), Ok(PackageKind::SevenZip));
    assert_eq!(package_kind("a.exe"), Ok(PackageKind::PortableExe));
    assert_eq!(package_kind("a.msi"), Err("不支持的格式: a.msi".to_string()));
    assert_eq!(package_kind("a.ZIP"), Err("不支持的格式: a.ZIP".to_string()));
}

#[test]
fn install_and_cache_reports() {
    let r = installed_result("x".into(), true, "C:\\s.lnk".into(), "C:\\p.zip".into());
    assert_eq!(r.message, "使用缓存安装完成");
    assert_eq!(r.shortcut_path.as_deref(), Some("C:\\s.lnk"));
    assert!(r.success && r.used_cache);
    let r = installed_result("x".into(), false, "s".into(), "p".into());
    assert_eq!(r.message, "下载并缓存后安装完成");
    let r = cached_result("x".into(), true, "p".into());
    assert_eq!(r.message, "已使用本地缓存");
    assert!(r.shortcut_path.is_none());
    let r = cached_result("x".into(), false, "p".into());
    assert_eq!(r.message, "安装包已缓存");
    assert_eq!(size_mismatch_message(100, 0), "安装包大小不匹配: 期望 100 字节,实际 0 字节");
}

#[test]
fn temporary_download_is_the_cached_name_with_part() {
    let cached = package_cache_path("C:\\data", "tool", "1.0", "tool.zip");
    let temp = package_temp_path("C:\\data", "tool", "1.0", "tool.zip");
    assert_eq!(temp, "C:\\data\\packages\\tool\\1.0\\tool.zip.part");
    assert_eq!(temp, format!("{}.part", cached));
}

#[test]
fn helper_executables_are_skipped() {
    assert!(is_helper_exe("Uninstall.exe"));
    assert!(is_helper_exe("SETUP-helper.exe"));
    assert!(is_helper_exe("Update.exe"));
    assert!(!is_helper_exe("Update2.exe"));
    assert!(is_helper_exe("CrashReporter.exe"));
    assert!(!is_helper_exe("App.exe"));
    assert!(is_exe_candidate("App.exe"));
    assert!(!is_exe_candidate("App.EXE"));
    assert!(!is_exe_candidate(".exe"));
    assert!(!is_exe_candidate("elevate.exe"));
    assert!(!is_exe_candidate("readme.txt"));
    assert!(is_exe_candidate("..exe"));
}

#[test]
fn main_executable_is_shallow_large_and_first() {
    let cs = vec![
        cand(1, 500, "C:\\a\\bin\\big.exe"),
        cand(0, 10, "C:\\a\\small.exe"),
        cand(0, 20, "C:\\a\\b.exe"),
        cand(0, 20, "C:\\a\\a.exe"),
        cand(0, 20, "C:\\a\\other\\..\\a.exe"),
    ];
    assert_eq!(best_candidate(&cs), Some(3));
    assert_eq!(find_main_exe(None, &cs), Ok("C:\\a\\a.exe".to_string()));
    assert_eq!(
        find_main_exe(Some("C:\\a\\pref.exe".to_string()), &cs),
        Ok("C:\\a\\pref.exe".to_string())
    );
    assert_eq!(find_main_exe(None, &[]), Err("解压完成但没找到 exe".to_string()));
    let ties = vec![cand(0, 5, "C:\\x\\same.exe"), cand(0, 5, "C:\\y\\same.exe")];
    assert_eq!(best_candidate(&ties), Some(0));
}

#[test]
fn preferred_executable_path() {
    let list: Vec<CustomSoftwareConfig> = Vec::new();
    assert_eq!(
        preferred_exe_path("D:\\Apps\\wegame", "wegame", &list),
        Some("D:\\Apps\\wegame\\wegame.exe".to_string())
    );
    assert_eq!(preferred_exe_path("D:\\Apps\\x", "x", &list), None);
}

#[test]
fn shortcuts_use_display_names() {
    assert_eq!(display_name_for_id("amd-adrenalin"), "AMD Adrenalin Edition");
    assert_eq!(display_name_for_id("quickclipboard"), "QuickClipboard");
    assert_eq!(display_name_for_id("tool"), "tool");
    assert_eq!(
        shortcut_path_at(Some("C:\\Users\\me\\Desktop".to_string()), "stranslate"),
        Ok("C:\\Users\\me\\Desktop\\STranslate.lnk".to_string())
    );
    assert_eq!(shortcut_path_at(None, "x"), Err("找不到桌面目录".to_string()));
    match shortcut_path_for_id("wegame") {
        Ok(p) => assert!(p.ends_with("WeGame.lnk")),
        Err(e) => assert_eq!(e, "找不到桌面目录"),
    }
    assert_eq!(
        shortcut_script("C:\\d\\A.lnk", "C:\\a\\a.exe", "C:\\a"),
        "$s=(New-Object -COM WScript.Shell).CreateShortcut('C:\\d\\A.lnk');$s.TargetPath='C:\\a\\a.exe';$s.WorkingDirectory='C:\\a';$s.Save()"
    );
}

#[test]
fn registry_values_name_executables() {
    assert_eq!(
        named_exe_from_pathish(" \"C:\\Program Files\\WeGame\\WeGame.exe\",0 ", "wegame.exe"),
        Some("C:\\Program Files\\WeGame\\WeGame.exe".to_string())
    );
    assert_eq!(
        named_exe_from_pathish("C:\\WeGame\\uninst.exe", "wegame.exe"),
        None
    );
    assert_eq!(named_exe_from_pathish("  \"\"  ", "wegame.exe"), None);
    assert!(is_wegame_entry(&entry(Some("WeGame 5.0"), None, None)));
    assert!(!is_wegame_entry(&entry(Some("Other"), None, None)));
    assert!(!is_wegame_entry(&entry(None, None, None)));
    assert!(exe_name_matches("WEGAME.EXE", "wegame.exe"));
    assert!(exe_name_matches("ÄPP.exe", "äpp.exe"));
    assert!(!exe_name_matches("a.exe", "b.exe"));
}

#[test]
fn usual_install_locations() {
    let roots = strings(&["C:\\Program Files (x86)", "C:\\Program Files"]);
    assert_eq!(
        common_wegame_exe_paths(&roots),
        strings(&[
            "C:\\Program Files (x86)\\Tencent\\WeGame\\wegame.exe",
            "C:\\Program Files (x86)\\WeGame\\wegame.exe",
            "C:\\Program Files\\Tencent\\WeGame\\wegame.exe",
            "C:\\Program Files\\WeGame\\wegame.exe",
        ])
    );
    assert_eq!(
        common_amd_exe_paths(&strings(&["C:\\Program Files"])),
        strings(&[
            "C:\\Program Files\\AMD\\CNext\\CNext\\RadeonSoftware.exe",
            "C:\\Program Files\\AMD\\CNext\\RadeonSoftware.exe",
        ])
    );
}

#[test]
fn uninstall_routes() {
    assert_eq!(uninstall_route("wegame"), UninstallRoute::WeGame);
    assert_eq!(uninstall_route("amd-adrenalin"), UninstallRoute::AmdAdrenalin);
    assert_eq!(uninstall_route("tool"), UninstallRoute::Portable);
    let r = uninstalled_result("tool".into(), "D:\\Apps\\tool");
    assert_eq!(r.message, "已卸载: D:\\Apps\\tool");
}

#[test]
fn wegame_uninstall_steps() {
    let e = entry(Some("WeGame"), Some("  C:\\WeGame\\uninst.exe  "), Some("q"));
    match wegame_uninstall_step(Some(&e), "D:\\Apps\\wegame", false) {
        Ok(WegameUninstall::Launch(c)) => assert_eq!(c, "C:\\WeGame\\uninst.exe"),
        _ => panic!("launch"),
    }
    let blank = entry(Some("WeGame"), Some("  "), Some("q"));
    match wegame_uninstall_step(Some(&blank), "D:\\Apps\\wegame", true) {
        Err(m) => assert_eq!(m, "找到了 WeGame，但注册表里没有卸载命令"),
        _ => panic!("blank command"),
    }
    let quiet = entry(None, None, Some("q.exe /S"));
    match wegame_uninstall_step(Some(&quiet), "x", false) {
        Ok(WegameUninstall::Launch(c)) => assert_eq!(c, "q.exe /S"),
        _ => panic!("quiet command"),
    }
    let step = wegame_uninstall_step(None, "D:\\Apps\\wegame", true);
    match &step {
        Ok(s @ WegameUninstall::RemoveDir(d)) => {
            assert_eq!(d, "D:\\Apps\\wegame");
            assert_eq!(
                wegame_uninstall_result(s).message,
                "已删除软件管家内的 WeGame 目录: D:\\Apps\\wegame"
            );
        }
        _ => panic!("remove dir"),
    }
    match wegame_uninstall_step(None, "D:\\Apps\\wegame", false) {
        Err(m) => assert_eq!(m, "未找到 WeGame 卸载信息"),
        _ => panic!("nothing found"),
    }
    let launched = wegame_uninstall_result(&WegameUninstall::Launch("x".into()));
    assert_eq!(launched.message, "已启动 WeGame 卸载程序；如果出现 UAC，请手动允许");
    assert_eq!(launched.id, "wegame");
}

#[test]
fn amd_uninstall_commands() {
    let e = entry(None, None, Some("quiet"));
    assert_eq!(amd_uninstall_command(Some(&e)), Ok("quiet".to_string()));
    let e = entry(None, Some(" u "), Some("quiet"));
    assert_eq!(amd_uninstall_command(Some(&e)), Ok(" u ".to_string()));
    let e = entry(None, None, None);
    assert_eq!(amd_uninstall_command(Some(&e)), Err("AMD 卸载项没有卸载命令".to_string()));
    assert_eq!(amd_uninstall_command(None), Err("未找到 AMD Adrenalin 卸载信息".to_string()));
    assert_eq!(amd_uninstall_result().message, "已启动 AMD Adrenalin 卸载程序");
}

#[test]
fn uninstall_commands_are_checked_and_started() {
    assert_eq!(uninstall_command_text("  \"C:\\u.exe\" /S "), Ok("\"C:\\u.exe\" /S".to_string()));
    assert_eq!(uninstall_command_text("   "), Err("卸载命令为空".to_string()));
    assert_eq!(uninstall_program(&strings(&[" ", "/S"])), Err("卸载命令格式无效".to_string()));
    assert_eq!(uninstall_program(&[]), Err("卸载命令格式无效".to_string()));
    assert_eq!(uninstall_program(&strings(&["C:\\u.exe"])), Ok("C:\\u.exe".to_string()));

    let parts = strings(&["C:\\Program Files\\u.exe", "/S", "a\"b"]);
    match uninstall_launch(&parts, false, false) {
        Err(m) => assert_eq!(m, "卸载程序不存在: C:\\Program Files\\u.exe"),
        _ => panic!("missing program"),
    }
    match uninstall_launch(&parts, true, true) {
        Ok(UninstallLaunch::Direct { program, args }) => {
            assert_eq!(program, "C:\\Program Files\\u.exe");
            assert_eq!(args, strings(&["/S", "a\"b"]));
        }
        _ => panic!("direct launch"),
    }
    let expected = "$file = \"C:\\\\Program Files\\\\u.exe\"; $argv = @(\"/S\", \"a\\\"b\"); Start-Process -FilePath $file -ArgumentList $argv -Verb RunAs -WindowStyle Normal";
    match uninstall_launch(&parts, true, false) {
        Ok(UninstallLaunch::Elevated { script }) => assert_eq!(script, expected),
        _ => panic!("elevated launch"),
    }
    assert_eq!(
        elevated_uninstall_script(&strings(&["C:\\u.exe"])),
        Ok("$file = \"C:\\\\u.exe\"; Start-Process -FilePath $file -Verb RunAs -WindowStyle Normal".to_string())
    );
}

#[test]
fn elevated_scripts_escape_control_characters() {
    assert_eq!(
        elevated_uninstall_script(&strings(&["C:\\u.exe", "a\nb", "\u{1}", "t\tx"])),
        Ok("$file = \"C:\\\\u.exe\"; $argv = @(\"a\\nb\", \"\\u0001\", \"t\\tx\"); Start-Process -FilePath $file -ArgumentList $argv -Verb RunAs -WindowStyle Normal".to_string())
    );
    match uninstall_launch(&strings(&["C:\\u.exe", "\u{1f}"]), true, false) {
        Ok(UninstallLaunch::Elevated { script }) => assert!(script.contains("@(\"\\u001f\")")),
        _ => panic!("elevated launch"),
    }
}

#[test]
fn assisted_wegame_install() {
    assert_eq!(
        resolve_wegame_package("C:\\data", "wegame", "5.0", "WeGameSetup.exe"),
        Ok("C:\\data\\packages\\wegame\\5.0\\WeGameSetup.exe".to_string())
    );
    assert_eq!(
        resolve_wegame_package("C:\\data", "tool", "1", "t.exe"),
        Err("tool 暂不支持辅助安装".to_string())
    );
    let r = installer_launched_result(4242, "D:\\Apps\\wegame");
    assert_eq!(r.message, "已启动 WeGame 安装器 (PID 4242)。建议目录: D:\\Apps\\wegame");
    assert_eq!(r.pid, Some(4242));
    assert!(r.success && !r.installed && r.exit_code.is_none());
}
