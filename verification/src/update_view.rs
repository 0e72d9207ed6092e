//! The update of the application: what is shown of it.

use crate::double;
use crate::float64::Double;
use crate::number;
use crate::text;
use vstd::prelude::*;

verus! {

/// A version that there is to be had.
#[derive(Debug)]
pub struct UpdateInfo {
    pub tag: String,
    pub body: String,
    pub html_url: String,
}

/// How far an update is.
#[derive(Debug)]
pub enum UpdateState {
    Idle,
    UpToDate,
    Checking,
    Available(UpdateInfo),
    Downloading { received: u64, total: Option<u64> },
    ReadyToRestart,
    DmgOpened,
    Failed(String),
}

/// A number of bytes, or of the largest of two units of 1024 that it reaches.
pub open spec fn pretty(bytes: int) -> Seq<char> {
    if !double::below(double::of_int(bytes), double::of_int(1_048_576)) {
        double::fixed(double::divided_by(double::of_int(bytes), 1_048_576), 1) + " MB"@
    } else if !double::below(double::of_int(bytes), double::of_int(1024)) {
        double::fixed(double::divided_by(double::of_int(bytes), 1024), 1) + " KB"@
    } else {
        number::int_text(bytes) + " B"@
    }
}

fn pretty_bytes(bytes: u64) -> (r: String)
    ensures
        r@ == pretty(bytes as int),
{
    let value: Double = Double::from_u64(bytes);
    if !value.is_below(Double::from_u64(1_048_576)) {
        text::concat(value.over(1_048_576).to_fixed(1).as_str(), " MB")
    } else if !value.is_below(Double::from_u64(1024)) {
        text::concat(value.over(1024).to_fixed(1).as_str(), " KB")
    } else {
        text::concat(number::u64_text(bytes).as_str(), " B")
    }
}

/// How much was received, of how much where that is known.
pub fn format_bytes(received: u64, total: Option<u64>) -> (r: String)
    ensures
        r@ == match total {
            Some(total) => pretty(received as int) + " / "@ + pretty(total as int),
            None => pretty(received as int),
        },
{
    match total {
        Some(total) => text::concat3(
            pretty_bytes(received).as_str(),
            " / ",
            pretty_bytes(total).as_str(),
        ),
        None => pretty_bytes(received),
    }
}

/// What the line at the bottom shows: the version that runs, or that another one
/// is to be had or ready, and whether it opens the window.
pub fn footer(state: &UpdateState, version: &str) -> (r: (String, bool))
    ensures
        match *state {
            UpdateState::Available(info) => r.0@ == "新版本 "@ + info.tag@ + " 可用"@ && r.1,
            UpdateState::ReadyToRestart => r.0@ == "更新已就绪, 点击查看"@ && r.1,
            UpdateState::DmgOpened => r.0@ == "更新已就绪, 点击查看"@ && r.1,
            _ => r.0@ == version@ && !r.1,
        },
{
    match state {
        UpdateState::Available(info) => {
            (text::concat3("新版本 ", info.tag.as_str(), " 可用"), true)
        },
        UpdateState::ReadyToRestart => ("更新已就绪, 点击查看".to_string(), true),
        UpdateState::DmgOpened => ("更新已就绪, 点击查看".to_string(), true),
        _ => (version.to_string(), false),
    }
}

/// What the window says of an update.
pub fn window_line(state: &UpdateState) -> (r: String)
    ensures
        r@ == match *state {
            UpdateState::Idle => "已是最新版本."@,
            UpdateState::UpToDate => "已是最新版本."@,
            UpdateState::Checking => "正在检查更新..."@,
            UpdateState::Available(info) => "最新版本: "@ + info.tag@,
            UpdateState::Downloading { .. } => "正在下载更新..."@,
            UpdateState::ReadyToRestart => "更新已安装完成, 重启应用后生效."@,
            UpdateState::DmgOpened => "安装镜像已在系统中打开, 请将 Codex Switch 拖入 Applications 文件夹完成安装, 之后重新启动应用."@,
            UpdateState::Failed(message) => "更新失败: "@ + message@,
        },
{
    match state {
        UpdateState::Idle => "已是最新版本.".to_string(),
        UpdateState::UpToDate => "已是最新版本.".to_string(),
        UpdateState::Checking => "正在检查更新...".to_string(),
        UpdateState::Available(info) => text::concat("最新版本: ", info.tag.as_str()),
        UpdateState::Downloading { .. } => "正在下载更新...".to_string(),
        UpdateState::ReadyToRestart => "更新已安装完成, 重启应用后生效.".to_string(),
        UpdateState::DmgOpened => "安装镜像已在系统中打开, 请将 Codex Switch 拖入 Applications 文件夹完成安装, 之后重新启动应用.".to_string(),
        UpdateState::Failed(message) => text::concat("更新失败: ", message.as_str()),
    }
}

/// What the window says of a download, and whether it can show how far it is.
pub fn download_line(received: u64, total: Option<u64>) -> (r: (String, bool))
    ensures
        match total {
            Some(all) => if all > 0 {
                r.0@ == pretty(received as int) + " / "@ + pretty(all as int) && r.1
            } else {
                r.0@ == "已下载 "@ + pretty(received as int) && !r.1
            },
            None => r.0@ == "已下载 "@ + pretty(received as int) && !r.1,
        },
{
    match total {
        Some(all) => if all > 0 {
            (format_bytes(received, Some(all)), true)
        } else {
            (text::concat("已下载 ", format_bytes(received, None).as_str()), false)
        },
        None => (text::concat("已下载 ", format_bytes(received, None).as_str()), false),
    }
}

/// Whether the window offers to look for updates again.
pub fn can_check_again(state: &UpdateState) -> (r: bool)
    ensures
        r == (state is Idle || state is UpToDate || state is Failed),
{
    match state {
        UpdateState::Idle => true,
        UpdateState::UpToDate => true,
        UpdateState::Failed(_) => true,
        _ => false,
    }
}

/// What is said once updates are looked for at every start, or no longer.
pub open spec fn auto_check_text(enabled: bool) -> Seq<char> {
    if enabled {
        "已开启启动时自动检查更新"@
    } else {
        "已关闭启动时自动检查更新"@
    }
}

/// What is said once updates are looked for at every start, or no longer.
pub fn auto_check_status(enabled: bool) -> (r: &'static str)
    ensures
        r@ == auto_check_text(enabled),
{
    if enabled {
        "已开启启动时自动检查更新"
    } else {
        "已关闭启动时自动检查更新"
    }
}

/// What is said once a version is passed over.
pub fn skipped_status(tag: &str) -> (r: String)
    ensures
        r@ == "已跳过版本 "@ + tag@,
{
    text::concat("已跳过版本 ", tag)
}

/// What is said once a version's page was opened, or was not.
pub fn release_page_status(result: Result<(), String>) -> (r: String)
    ensures
        r@ == match result {
            Ok(_) => "已在浏览器打开 Release 页"@,
            Err(message) => "打开 Release 页失败: "@ + message@,
        },
{
    match result {
        Ok(_) => "已在浏览器打开 Release 页".to_string(),
        Err(message) => text::concat("打开 Release 页失败: ", message.as_str()),
    }
}

/// Fewer than 1024 bytes are shown as they are; whole kilobytes and megabytes
/// are shown as such.
pub proof fn law_whole_units_are_shown(n: int)
    requires
        0 < n < 1024,
    ensures
        pretty(n) == number::int_text(n) + " B"@,
        pretty(n * 1024) == double::fixed(double::of_int(n), 1) + " KB"@,
        pretty(n * 1_048_576) == double::fixed(double::of_int(n), 1) + " MB"@,
{
    let k: int = n * 1024;
    let m: int = n * 1_048_576;
    double::law_whole_numbers_are_exact(n, 1024);
    double::law_whole_numbers_are_exact(n, 1_048_576);
    double::law_whole_numbers_are_exact(k, 1024);
    double::law_whole_numbers_are_exact(k, 1_048_576);
    double::law_whole_numbers_are_exact(m, 1_048_576);
    double::law_division_undoes_multiplication(n, 1024);
    double::law_division_undoes_multiplication(n, 1_048_576);
}

} // verus!
