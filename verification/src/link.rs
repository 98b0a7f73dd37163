//! Linking with the window of another Xiangqi program: keeping both boards in
//! step, and the plain data exchanged with the window and the input device.
use vstd::prelude::*;
use std::time::Duration;
use crate::link::sync::ExternalUpdate;

pub mod sync;

verus! {

/// A point on the screen, in pixels.
#[derive(Debug, Clone, Copy, PartialEq, Eq, Structural)]
pub struct ScreenPoint {
    pub x: i32,
    pub y: i32,
}

/// Two clicks that play a move in the other window: the origin, a pause, the target.
#[derive(Debug, Clone, Copy, PartialEq, Eq)]
pub struct InputPlan {
    pub from: ScreenPoint,
    pub to: ScreenPoint,
    pub delay: Duration,
}

/// What injecting a move produced.
#[derive(Debug, Clone, PartialEq, Eq)]
pub struct InjectResult {
    pub plan: InputPlan,
    /// Whether the expected board showed up afterwards (`None` when not checked).
    pub confirmed: Option<bool>,
    pub update: Option<ExternalUpdate>,
}

/// Whether an injected move counts as confirmed: the capture after the clicks
/// was confirmed and its board is exactly the expected one.
pub fn injection_confirmed(capture_confirmed: bool, observed: Option<&crate::types::Board>, expected: &crate::types::Board) -> (b: bool)
    ensures
        b == (capture_confirmed && (observed matches Some(o) && *o == *expected)),
{
    capture_confirmed && match observed {
        Some(o) => *o == *expected,
        None => false,
    }
}

/// A top-level window that can be linked.
#[derive(Debug, Clone, PartialEq, Eq)]
pub struct LinkWindowInfo {
    pub id: u32,
    pub title: String,
    pub app_name: String,
    pub width: u32,
    pub height: u32,
}

/// `LinkWindowInfo` with its texts as character sequences.
pub struct LinkWindowView {
    pub id: u32,
    pub title: Seq<char>,
    pub app_name: Seq<char>,
    pub width: u32,
    pub height: u32,
}

impl View for LinkWindowInfo {
    type V = LinkWindowView;

    open spec fn view(&self) -> LinkWindowView {
        LinkWindowView {
            id: self.id,
            title: self.title@,
            app_name: self.app_name@,
            width: self.width,
            height: self.height,
        }
    }
}

impl LinkWindowInfo {
    /// A copy of the description.
    pub fn copy(&self) -> (c: Self)
        ensures
            c@ == self@,
    {
        LinkWindowInfo {
            id: self.id,
            title: self.title.clone(),
            app_name: self.app_name.clone(),
            width: self.width,
            height: self.height,
        }
    }
}

/// Whether this program may send input to other windows.
#[derive(Debug, Clone, Copy, PartialEq, Eq, Structural)]
pub enum InputPermissionStatus {
    Granted,
    Denied,
    NotSupported,
}

/// The permission status and, when it is missing, how to grant it.
#[derive(Debug, Clone, Copy, PartialEq, Eq)]
pub struct PermissionCheck {
    pub status: InputPermissionStatus,
    pub guidance: Option<&'static str>,
}

/// What the user is told when input permission is missing.
pub open spec fn permission_guidance() -> Seq<char> {
    "请在 系统设置 > 隐私与安全性 > 辅助功能 与 输入监控 中授权本应用。"@
}

/// The permission check for the answer of the platform's accessibility
/// probe: `Some(trusted)` where the platform has one, `None` elsewhere.
pub fn check_input_permission(trusted: Option<bool>) -> (p: PermissionCheck)
    ensures
        trusted is None ==> p.status == InputPermissionStatus::NotSupported && p.guidance is None,
        trusted == Some(true) ==> p.status == InputPermissionStatus::Granted && p.guidance is None,
        trusted == Some(false) ==> p.status == InputPermissionStatus::Denied && (p.guidance matches Some(
            g,
        ) && g@ == permission_guidance()),
{
    match trusted {
        None => PermissionCheck { status: InputPermissionStatus::NotSupported, guidance: None },
        Some(true) => PermissionCheck { status: InputPermissionStatus::Granted, guidance: None },
        Some(false) => PermissionCheck {
            status: InputPermissionStatus::Denied,
            guidance: Some("请在 系统设置 > 隐私与安全性 > 辅助功能 与 输入监控 中授权本应用。"),
        },
    }
}

/// Minimal health check of the linking side.
pub fn link_healthcheck() -> (s: &'static str)
    ensures
        s@ == "xq-link/ok"@,
{
    let _ = crate::vision::vision_healthcheck();
    let _ = crate::core_version();
    "xq-link/ok"
}

} // verus!
