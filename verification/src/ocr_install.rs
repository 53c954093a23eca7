//! The assisted WeGame install: which package it runs and what it reports.

use vstd::prelude::*;

use crate::config::{join_path, package_cache_dir_spec, package_cache_path, safe_file_name_spec};
use crate::text::{chars_of, decimal, push_decimal, push_str, str_eq, string_from_chars};

verus! {

/// What starting the WeGame installer reports back.
pub struct WeGameInstallResult {
    pub success: bool,
    pub message: String,
    pub exit_code: Option<i32>,
    pub pid: Option<u32>,
    pub installed: bool,
}

/// The cached package that the assisted install runs; only WeGame has one.
pub fn resolve_wegame_package(data_dir: &str, id: &str, version: &str, file_name: &str) -> (res:
    Result<String, String>)
    ensures
        id@ == "wegame"@ ==> (res matches Ok(p) && p@ == join_path(
            package_cache_dir_spec(data_dir@, id@, version@),
            safe_file_name_spec(file_name@),
        )),
        id@ != "wegame"@ ==> (res matches Err(e) && e@ == id@ + " 暂不支持辅助安装"@),
{
    if !str_eq(id, "wegame") {
        let mut v = chars_of(id);
        push_str(&mut v, " 暂不支持辅助安装");
        return Err(string_from_chars(v.as_slice()));
    }
    Ok(package_cache_path(data_dir, id, version, file_name))
}

pub open spec fn installer_launched_message(pid: u32, install_dir: Seq<char>) -> Seq<char> {
    "已启动 WeGame 安装器 (PID "@ + decimal(pid as nat) + ")。建议目录: "@ + install_dir
}

/// The report after the WeGame installer was started as process `pid`.
pub fn installer_launched_result(pid: u32, install_dir: &str) -> (res: WeGameInstallResult)
    ensures
        res.success,
        res.message@ == installer_launched_message(pid, install_dir@),
        res.exit_code.is_none(),
        res.pid == Some(pid),
        !res.installed,
{
    let mut v = chars_of("已启动 WeGame 安装器 (PID ");
    push_decimal(&mut v, pid as u128);
    push_str(&mut v, ")。建议目录: ");
    push_str(&mut v, install_dir);
    WeGameInstallResult {
        success: true,
        message: string_from_chars(v.as_slice()),
        exit_code: None,
        pid: Some(pid),
        installed: false,
    }
}

} // verus!
