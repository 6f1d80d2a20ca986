//! What a browser tool call asks the browser host to do, read out of its
//! arguments: the viewport change, the navigation, the screenshot options
//! and the page interaction, or the error the call is refused with.

use vstd::prelude::*;
use crate::browser::{viewport_supported, BrowserScreenshotFormat, BrowserToolError};
use crate::browser_args::{
    bool_arg, member, optional_string, optional_string_of, snapshot_target, snapshot_target_of, string_arg,
    u32_arg, u32_arg_of, BrowserSnapshotTarget, Members,
};
use crate::json::{json_entries_view, JsonValue};
use crate::json_access::{as_bool, as_u64, get, value_as_bool, value_as_u64};
use crate::text::{opt_string_view, str_eq};

verus! {

/// The device a fixed viewport emulates.
#[derive(Clone, Copy, Debug, PartialEq, Eq, Structural)]
pub enum BrowserDeviceType {
    Desktop,
    Mobile,
}

/// The device a viewport's width stands for: up to 600 pixels a phone,
/// wider a desktop.
pub open spec fn device_type_for_width(width: u32) -> BrowserDeviceType {
    if width <= 600 {
        BrowserDeviceType::Mobile
    } else {
        BrowserDeviceType::Desktop
    }
}

/// A fixed logical viewport.
#[derive(Clone, Copy, Debug, PartialEq, Eq, Structural)]
pub struct BrowserViewport {
    pub width: u32,
    pub height: u32,
    pub device_scale_factor_millis: u32,
    pub device_type: BrowserDeviceType,
}

/// What a `browser_viewport` call asks for.
#[derive(Clone, Copy, Debug, PartialEq, Eq, Structural)]
pub enum ViewportRequest {
    /// Read the page's logical viewport.
    Get,
    /// Let the page follow the window again.
    SetAuto,
    /// Fix the page's viewport.
    SetFixed(BrowserViewport),
}

/// An error code and message.
pub type Refusal = (Seq<char>, Seq<char>);

pub open spec fn u32_refusal(name: Seq<char>) -> Refusal {
    ("invalid_arguments"@, "参数 "@ + name + " 必须是正整数"@)
}

pub open spec fn missing_refusal(name: Seq<char>) -> Refusal {
    ("invalid_arguments"@, "缺少参数 "@ + name)
}

/// The fixed viewport the arguments ask for: its size, a device scale
/// factor (1000 thousandths unless given), and a device type that, where
/// given, must match the width.
pub open spec fn fixed_viewport_of(args: Members) -> Result<ViewportRequest, Refusal> {
    match u32_arg_of(args, "width"@) {
        None => Err(u32_refusal("width"@)),
        Some(width) => match u32_arg_of(args, "height"@) {
            None => Err(u32_refusal("height"@)),
            Some(height) => if !viewport_supported(width, height) {
                Err(("browser_viewport_invalid"@, "浏览器页面视口尺寸超出支持范围"@))
            } else {
                let scale = if member(args, "device_scale_factor_millis"@) is Some {
                    u32_arg_of(args, "device_scale_factor_millis"@)
                } else {
                    Some(1000u32)
                };
                match scale {
                    None => Err(u32_refusal("device_scale_factor_millis"@)),
                    Some(scale) => if !(500 <= scale <= 4000) {
                        Err(("browser_viewport_invalid"@, "浏览器页面设备像素比超出支持范围"@))
                    } else {
                        let device_type = device_type_for_width(width);
                        let viewport = BrowserViewport {
                            width,
                            height,
                            device_scale_factor_millis: scale,
                            device_type,
                        };
                        match optional_string_of(args, "device_type"@) {
                            None => Ok(ViewportRequest::SetFixed(viewport)),
                            Some(d) => if d != "desktop"@ && d != "mobile"@ {
                                Err(("browser_device_type_invalid"@, "device_type 必须是 desktop 或 mobile"@))
                            } else if (d == "desktop"@) != (device_type == BrowserDeviceType::Desktop) {
                                Err((
                                    "browser_device_type_mismatch"@,
                                    "device_type 与 width 不一致：320-600 必须为 mobile，601 以上必须为 desktop"@,
                                ))
                            } else {
                                Ok(ViewportRequest::SetFixed(viewport))
                            },
                        }
                    },
                }
            },
        },
    }
}

/// What a `browser_viewport` call's arguments ask for: `get`, or `set`
/// with mode `auto` or `fixed` (the default).
pub open spec fn viewport_request_of(args: Members) -> Result<ViewportRequest, Refusal> {
    match optional_string_of(args, "action"@) {
        None => Err(missing_refusal("action"@)),
        Some(action) => if action == "get"@ {
            Ok(ViewportRequest::Get)
        } else if action != "set"@ {
            Err(("invalid_viewport_action"@, "browser_viewport action 不合法"@))
        } else {
            let mode = match optional_string_of(args, "mode"@) {
                Some(m) => m,
                None => "fixed"@,
            };
            if mode == "auto"@ {
                Ok(ViewportRequest::SetAuto)
            } else if mode != "fixed"@ {
                Err(("browser_viewport_mode_invalid"@, "browser_viewport mode 必须是 auto 或 fixed"@))
            } else {
                fixed_viewport_of(args)
            }
        },
    }
}

pub open spec fn refused_as(e: BrowserToolError, refusal: Refusal) -> bool {
    e.code@ == refusal.0 && e.message@ == refusal.1
}

fn refuse(code: &str, message: &str) -> (e: BrowserToolError)
    ensures
        e.code@ == code@,
        e.message@ == message@,
{
    BrowserToolError::new(code, message)
}

/// The device type of a viewport's width.
pub fn device_type_for(width: u32) -> (r: BrowserDeviceType)
    ensures
        r == device_type_for_width(width),
{
    if width <= 600 {
        BrowserDeviceType::Mobile
    } else {
        BrowserDeviceType::Desktop
    }
}

fn fixed_viewport(arguments: &Vec<(String, JsonValue)>) -> (r: Result<ViewportRequest, BrowserToolError>)
    ensures
        match r {
            Ok(v) => fixed_viewport_of(json_entries_view(arguments@)) == Ok::<ViewportRequest, Refusal>(v),
            Err(e) => fixed_viewport_of(json_entries_view(arguments@)) matches Err(refusal) && refused_as(e, refusal),
        },
{
    let width = u32_arg(arguments, "width")?;
    let height = u32_arg(arguments, "height")?;
    crate::browser::validate_viewport_dimensions(width, height)?;
    let scale = match get(arguments, "device_scale_factor_millis") {
        Some(_) => u32_arg(arguments, "device_scale_factor_millis")?,
        None => 1000,
    };
    crate::browser::validate_device_scale_factor(scale)?;
    let device_type = device_type_for(width);
    let viewport = BrowserViewport { width, height, device_scale_factor_millis: scale, device_type };
    match optional_string(arguments, "device_type") {
        None => Ok(ViewportRequest::SetFixed(viewport)),
        Some(d) => {
            let desktop = str_eq(d.as_str(), "desktop");
            let mobile = str_eq(d.as_str(), "mobile");
            if !desktop && !mobile {
                return Err(refuse("browser_device_type_invalid", "device_type 必须是 desktop 或 mobile"));
            }
            let is_desktop = match device_type {
                BrowserDeviceType::Desktop => true,
                BrowserDeviceType::Mobile => false,
            };
            if desktop != is_desktop {
                return Err(refuse(
                    "browser_device_type_mismatch",
                    "device_type 与 width 不一致：320-600 必须为 mobile，601 以上必须为 desktop",
                ));
            }
            Ok(ViewportRequest::SetFixed(viewport))
        },
    }
}

/// What a `browser_viewport` call asks the browser host to do.
pub fn browser_viewport_request(arguments: &Vec<(String, JsonValue)>) -> (r: Result<ViewportRequest, BrowserToolError>)
    ensures
        match r {
            Ok(v) => viewport_request_of(json_entries_view(arguments@)) == Ok::<ViewportRequest, Refusal>(v),
            Err(e) => viewport_request_of(json_entries_view(arguments@)) matches Err(refusal) && refused_as(e, refusal),
        },
{
    let action = match string_arg(arguments, "action") {
        Ok(a) => a,
        Err(e) => {
            return Err(e);
        },
    };
    if str_eq(action.as_str(), "get") {
        return Ok(ViewportRequest::Get);
    }
    if !str_eq(action.as_str(), "set") {
        return Err(refuse("invalid_viewport_action", "browser_viewport action 不合法"));
    }
    let mode = optional_string(arguments, "mode");
    let is_auto = match &mode {
        Some(m) => str_eq(m.as_str(), "auto"),
        None => false,
    };
    if is_auto {
        return Ok(ViewportRequest::SetAuto);
    }
    let is_fixed = match &mode {
        Some(m) => str_eq(m.as_str(), "fixed"),
        None => true,
    };
    proof {
        reveal_strlit("fixed");
        reveal_strlit("auto");
        reveal_strlit("get");
        reveal_strlit("set");
    }
    if !is_fixed {
        return Err(refuse("browser_viewport_mode_invalid", "browser_viewport mode 必须是 auto 或 fixed"));
    }
    let ghost args = json_entries_view(arguments@);
    assert(optional_string_of(args, "action"@) == Some("set"@));
    assert("set"@ != "get"@);
    assert(match optional_string_of(args, "mode"@) { Some(m) => m, None => "fixed"@ } == "fixed"@);
    assert(viewport_request_of(args) == fixed_viewport_of(args));
    fixed_viewport(arguments)
}

/// A navigation of a tab.
#[derive(Clone, Debug, PartialEq, Eq)]
pub enum BrowserNavigation {
    Url {
        url: String,
        handle_before_unload: Option<String>,
        init_script: Option<String>,
        timeout_ms: Option<u32>,
    },
    Back { timeout_ms: Option<u32> },
    Forward { timeout_ms: Option<u32> },
    Reload { ignore_cache: bool, handle_before_unload: Option<String>, timeout_ms: Option<u32> },
}

pub enum NavigationView {
    Url {
        url: Seq<char>,
        handle_before_unload: Option<Seq<char>>,
        init_script: Option<Seq<char>>,
        timeout_ms: Option<u32>,
    },
    Back { timeout_ms: Option<u32> },
    Forward { timeout_ms: Option<u32> },
    Reload { ignore_cache: bool, handle_before_unload: Option<Seq<char>>, timeout_ms: Option<u32> },
}

impl View for BrowserNavigation {
    type V = NavigationView;

    open spec fn view(&self) -> NavigationView {
        match self {
            BrowserNavigation::Url { url, handle_before_unload, init_script, timeout_ms } => NavigationView::Url {
                url: url@,
                handle_before_unload: opt_string_view(*handle_before_unload),
                init_script: opt_string_view(*init_script),
                timeout_ms: *timeout_ms,
            },
            BrowserNavigation::Back { timeout_ms } => NavigationView::Back { timeout_ms: *timeout_ms },
            BrowserNavigation::Forward { timeout_ms } => NavigationView::Forward { timeout_ms: *timeout_ms },
            BrowserNavigation::Reload { ignore_cache, handle_before_unload, timeout_ms } => NavigationView::Reload {
                ignore_cache: *ignore_cache,
                handle_before_unload: opt_string_view(*handle_before_unload),
                timeout_ms: *timeout_ms,
            },
        }
    }
}

pub open spec fn navigation_refusal(message: Seq<char>) -> Refusal {
    ("invalid_navigation"@, message)
}

/// A navigation timeout, where given: it must fit in 32 bits, and is held
/// between 1 and 60000 milliseconds.
pub open spec fn navigation_timeout_of(args: Members) -> Result<Option<u32>, Refusal> {
    match as_u64(member(args, "timeout_ms"@)) {
        None => Ok(None),
        Some(v) => if v > u32::MAX {
            Err(navigation_refusal("timeout_ms 超出支持范围"@))
        } else if v < 1 {
            Ok(Some(1u32))
        } else if v > 60000 {
            Ok(Some(60000u32))
        } else {
            Ok(Some(v as u32))
        },
    }
}

/// What a `browser_navigate` call's arguments ask for: the `action`, or a
/// `url` when no action is named. A cache bypass is for reloads only; a
/// `beforeunload` dialog is accepted or dismissed.
pub open spec fn navigation_of(args: Members) -> Result<NavigationView, Refusal> {
    let action = match optional_string_of(args, "action"@) {
        Some(a) => Some(a),
        None => match optional_string_of(args, "url"@) {
            Some(_) => Some("url"@),
            None => None,
        },
    };
    match action {
        None => Err(navigation_refusal("必须提供 url，或显式指定 back、forward、reload action"@)),
        Some(action) => match navigation_timeout_of(args) {
            Err(refusal) => Err(refusal),
            Ok(timeout_ms) => {
                let before_unload = optional_string_of(args, "handle_before_unload"@);
                if before_unload matches Some(b) && b != "accept"@ && b != "dismiss"@ {
                    Err(navigation_refusal("handle_before_unload 必须是 accept 或 dismiss"@))
                } else {
                    let ignore_cache = as_bool(member(args, "ignore_cache"@)) == Some(true);
                    if action == "url"@ {
                        if ignore_cache {
                            Err(navigation_refusal("ignore_cache 只支持 reload action"@))
                        } else {
                            match optional_string_of(args, "url"@) {
                                None => Err(missing_refusal("url"@)),
                                Some(url) => Ok(NavigationView::Url {
                                    url,
                                    handle_before_unload: before_unload,
                                    init_script: optional_string_of(args, "init_script"@),
                                    timeout_ms,
                                }),
                            }
                        }
                    } else if action == "back"@ {
                        Ok(NavigationView::Back { timeout_ms })
                    } else if action == "forward"@ {
                        Ok(NavigationView::Forward { timeout_ms })
                    } else if action == "reload"@ {
                        Ok(NavigationView::Reload { ignore_cache, handle_before_unload: before_unload, timeout_ms })
                    } else {
                        Err(navigation_refusal("action 不合法"@))
                    }
                }
            },
        },
    }
}

fn navigation_timeout(arguments: &Vec<(String, JsonValue)>) -> (r: Result<Option<u32>, BrowserToolError>)
    ensures
        match r {
            Ok(t) => navigation_timeout_of(json_entries_view(arguments@)) == Ok::<Option<u32>, Refusal>(t),
            Err(e) => navigation_timeout_of(json_entries_view(arguments@)) matches Err(refusal) && refused_as(e, refusal),
        },
{
    match value_as_u64(get(arguments, "timeout_ms")) {
        None => Ok(None),
        Some(v) => {
            if v > 4294967295 {
                Err(refuse("invalid_navigation", "timeout_ms 超出支持范围"))
            } else if v < 1 {
                Ok(Some(1))
            } else if v > 60000 {
                Ok(Some(60000))
            } else {
                Ok(Some(v as u32))
            }
        },
    }
}

/// The navigation a `browser_navigate` call asks for. The URL itself is
/// checked by the browser authority before the navigation is sent.
pub fn browser_navigation_request(arguments: &Vec<(String, JsonValue)>) -> (r: Result<BrowserNavigation, BrowserToolError>)
    ensures
        match r {
            Ok(n) => navigation_of(json_entries_view(arguments@)) == Ok::<NavigationView, Refusal>(n@),
            Err(e) => navigation_of(json_entries_view(arguments@)) matches Err(refusal) && refused_as(e, refusal),
        },
{
    let ghost args = json_entries_view(arguments@);
    proof {
        reveal_strlit("url");
        reveal_strlit("back");
        reveal_strlit("forward");
        reveal_strlit("reload");
    }
    let action = match optional_string(arguments, "action") {
        Some(a) => a,
        None => match optional_string(arguments, "url") {
            Some(_) => crate::text::str_to_string("url"),
            None => {
                return Err(refuse("invalid_navigation", "必须提供 url，或显式指定 back、forward、reload action"));
            },
        },
    };
    let timeout_ms = match navigation_timeout(arguments) {
        Ok(t) => t,
        Err(e) => {
            return Err(e);
        },
    };
    let before_unload = optional_string(arguments, "handle_before_unload");
    let before_unload_ok = match &before_unload {
        Some(b) => str_eq(b.as_str(), "accept") || str_eq(b.as_str(), "dismiss"),
        None => true,
    };
    if !before_unload_ok {
        return Err(refuse("invalid_navigation", "handle_before_unload 必须是 accept 或 dismiss"));
    }
    let ignore_cache = bool_arg(arguments, "ignore_cache", false);
    if str_eq(action.as_str(), "url") {
        if ignore_cache {
            return Err(refuse("invalid_navigation", "ignore_cache 只支持 reload action"));
        }
        let url = match string_arg(arguments, "url") {
            Ok(u) => u,
            Err(e) => {
                return Err(e);
            },
        };
        let init_script = optional_string(arguments, "init_script");
        Ok(BrowserNavigation::Url { url, handle_before_unload: before_unload, init_script, timeout_ms })
    } else if str_eq(action.as_str(), "back") {
        Ok(BrowserNavigation::Back { timeout_ms })
    } else if str_eq(action.as_str(), "forward") {
        Ok(BrowserNavigation::Forward { timeout_ms })
    } else if str_eq(action.as_str(), "reload") {
        Ok(BrowserNavigation::Reload { ignore_cache, handle_before_unload: before_unload, timeout_ms })
    } else {
        Err(refuse("invalid_navigation", "action 不合法"))
    }
}

/// The options of a screenshot besides its element and clip.
#[derive(Clone, Copy, Debug, PartialEq, Eq, Structural)]
pub struct ScreenshotOptions {
    pub full_page: bool,
    pub format: BrowserScreenshotFormat,
    pub quality: Option<u8>,
}

/// The screenshot options the arguments ask for, once the element scope
/// and the clip were read: one scope at most; PNG unless `jpeg` or `webp`
/// is named; a quality, held at 100 at most, for those two only.
pub open spec fn screenshot_options_of(args: Members, has_clip: bool) -> Result<ScreenshotOptions, Refusal> {
    let has_element = optional_string_of(args, "element_ref"@) is Some;
    let full_page = as_bool(member(args, "full_page"@)) == Some(true);
    if crate::browser::scope_count(has_element, has_clip, full_page) > 1 {
        Err(("invalid_screenshot_scope"@, "element_ref、clip、full_page 三者只能选择一个截图范围"@))
    } else {
        let format = match optional_string_of(args, "format"@) {
            None => Some(BrowserScreenshotFormat::Png),
            Some(f) => if f == "png"@ {
                Some(BrowserScreenshotFormat::Png)
            } else if f == "jpeg"@ {
                Some(BrowserScreenshotFormat::Jpeg)
            } else if f == "webp"@ {
                Some(BrowserScreenshotFormat::Webp)
            } else {
                None
            },
        };
        match format {
            None => Err(("invalid_screenshot_format"@, "format 必须是 png、jpeg 或 webp"@)),
            Some(format) => match as_u64(member(args, "quality"@)) {
                Some(q) => if q > 255 {
                    Err(("invalid_screenshot_quality"@, "quality 必须在 0-100 之间"@))
                } else if format == BrowserScreenshotFormat::Png {
                    Err(("invalid_screenshot_quality"@, "PNG 不支持 quality，只有 jpeg 或 webp 支持质量参数"@))
                } else {
                    Ok(ScreenshotOptions { full_page, format, quality: Some(if q > 100 { 100u8 } else { q as u8 }) })
                },
                None => Ok(ScreenshotOptions { full_page, format, quality: None }),
            },
        }
    }
}

/// The options of a `browser_screenshot` call, after its element scope
/// and its clip were read (`has_clip`: a clip was given).
pub fn screenshot_options(arguments: &Vec<(String, JsonValue)>, has_clip: bool) -> (r: Result<ScreenshotOptions, BrowserToolError>)
    ensures
        match r {
            Ok(o) => screenshot_options_of(json_entries_view(arguments@), has_clip) == Ok::<ScreenshotOptions, Refusal>(o),
            Err(e) => screenshot_options_of(json_entries_view(arguments@), has_clip) matches Err(refusal)
                && refused_as(e, refusal),
        },
{
    let has_element = optional_string(arguments, "element_ref").is_some();
    let full_page = match value_as_bool(get(arguments, "full_page")) {
        Some(b) => b,
        None => false,
    };
    match crate::browser::validate_screenshot_scope(has_element, has_clip, full_page) {
        Ok(()) => {},
        Err(e) => {
            return Err(e);
        },
    }
    let format = match optional_string(arguments, "format") {
        None => BrowserScreenshotFormat::Png,
        Some(f) => {
            if str_eq(f.as_str(), "png") {
                BrowserScreenshotFormat::Png
            } else if str_eq(f.as_str(), "jpeg") {
                BrowserScreenshotFormat::Jpeg
            } else if str_eq(f.as_str(), "webp") {
                BrowserScreenshotFormat::Webp
            } else {
                return Err(refuse("invalid_screenshot_format", "format 必须是 png、jpeg 或 webp"));
            }
        },
    };
    match value_as_u64(get(arguments, "quality")) {
        Some(q) => {
            if q > 255 {
                return Err(refuse("invalid_screenshot_quality", "quality 必须在 0-100 之间"));
            }
            let is_png = match format {
                BrowserScreenshotFormat::Png => true,
                _ => false,
            };
            if is_png {
                return Err(refuse("invalid_screenshot_quality", "PNG 不支持 quality，只有 jpeg 或 webp 支持质量参数"));
            }
            let quality: u8 = if q > 100 { 100 } else { q as u8 };
            Ok(ScreenshotOptions { full_page, format, quality: Some(quality) })
        },
        None => Ok(ScreenshotOptions { full_page, format, quality: None }),
    }
}

pub open spec fn screenshot_extension_of(format: BrowserScreenshotFormat) -> Seq<char> {
    match format {
        BrowserScreenshotFormat::Png => "png"@,
        BrowserScreenshotFormat::Jpeg => "jpg"@,
        BrowserScreenshotFormat::Webp => "webp"@,
    }
}

/// The file extension a screenshot of this format is stored under.
pub fn screenshot_extension(format: BrowserScreenshotFormat) -> (r: &'static str)
    ensures
        r@ == screenshot_extension_of(format),
{
    match format {
        BrowserScreenshotFormat::Png => "png",
        BrowserScreenshotFormat::Jpeg => "jpg",
        BrowserScreenshotFormat::Webp => "webp",
    }
}

/// `browser-shot-{now}-{sequence}.{extension}`: the file a screenshot is
/// stored in, under the session's artifact directory.
pub fn browser_artifact_file_name(now_ms: u64, sequence: u64, extension: &str) -> (r: String)
    ensures
        r@ == "browser-shot-"@ + crate::text::decimal(now_ms as nat) + "-"@ + crate::text::decimal(sequence as nat) + "."@
            + extension@,
{
    let mut name = crate::text::str_to_string("browser-shot-");
    name.append(crate::text::u64_to_decimal(now_ms).as_str());
    name.append("-");
    name.append(crate::text::u64_to_decimal(sequence).as_str());
    name.append(".");
    name.append(extension);
    name
}

/// A page interaction other than a scroll's distances.
#[derive(Clone, Debug, PartialEq, Eq)]
pub enum BrowserInteraction {
    Click { target: BrowserSnapshotTarget },
    Type { target: BrowserSnapshotTarget, text: String, replace: bool, submit_key: Option<String> },
    Press { key: String },
}

pub enum InteractionView {
    Click { revision: u64, element_ref: Seq<char> },
    Type { revision: u64, element_ref: Seq<char>, text: Seq<char>, replace: bool, submit_key: Option<Seq<char>> },
    Press { key: Seq<char> },
}

impl View for BrowserInteraction {
    type V = InteractionView;

    open spec fn view(&self) -> InteractionView {
        match self {
            BrowserInteraction::Click { target } => InteractionView::Click {
                revision: target.snapshot_revision,
                element_ref: target.element_ref@,
            },
            BrowserInteraction::Type { target, text, replace, submit_key } => InteractionView::Type {
                revision: target.snapshot_revision,
                element_ref: target.element_ref@,
                text: text@,
                replace: *replace,
                submit_key: opt_string_view(*submit_key),
            },
            BrowserInteraction::Press { key } => InteractionView::Press { key: key@ },
        }
    }
}

/// The interaction a `browser_click`, `browser_type` or `browser_press`
/// call asks for. Typing replaces the field's text unless `replace` is
/// false.
pub open spec fn interaction_of(tool: Seq<char>, args: Members) -> Result<InteractionView, Refusal> {
    if tool == "browser_press"@ {
        match optional_string_of(args, "key"@) {
            None => Err(missing_refusal("key"@)),
            Some(key) => Ok(InteractionView::Press { key }),
        }
    } else {
        match snapshot_target_of(args) {
            Err(m) => Err(("invalid_arguments"@, m)),
            Ok((revision, element_ref)) => if tool == "browser_type"@ {
                match optional_string_of(args, "text"@) {
                    None => Err(missing_refusal("text"@)),
                    Some(text) => Ok(InteractionView::Type {
                        revision,
                        element_ref,
                        text,
                        replace: as_bool(member(args, "replace"@)) != Some(false),
                        submit_key: optional_string_of(args, "submit_key"@),
                    }),
                }
            } else {
                Ok(InteractionView::Click { revision, element_ref })
            },
        }
    }
}

/// The interaction a `browser_click`, `browser_type` or `browser_press`
/// call asks for; any other tool name is read as a click.
pub fn browser_interaction_request(tool: &str, arguments: &Vec<(String, JsonValue)>) -> (r: Result<BrowserInteraction, BrowserToolError>)
    ensures
        match r {
            Ok(i) => interaction_of(tool@, json_entries_view(arguments@)) == Ok::<InteractionView, Refusal>(i@),
            Err(e) => interaction_of(tool@, json_entries_view(arguments@)) matches Err(refusal) && refused_as(e, refusal),
        },
{
    if str_eq(tool, "browser_press") {
        return match string_arg(arguments, "key") {
            Ok(key) => Ok(BrowserInteraction::Press { key }),
            Err(e) => Err(e),
        };
    }
    let target = match snapshot_target(arguments) {
        Ok(t) => t,
        Err(e) => {
            return Err(e);
        },
    };
    if str_eq(tool, "browser_type") {
        let text = match string_arg(arguments, "text") {
            Ok(t) => t,
            Err(e) => {
                return Err(e);
            },
        };
        let replace = bool_arg(arguments, "replace", true);
        let submit_key = optional_string(arguments, "submit_key");
        Ok(BrowserInteraction::Type { target, text, replace, submit_key })
    } else {
        Ok(BrowserInteraction::Click { target })
    }
}

/// What a `browser_tabs` call asks for.
#[derive(Clone, Debug, PartialEq, Eq)]
pub enum BrowserTabsRequest {
    List,
    /// Open a tab on this address (`about:blank` unless a `url` is given).
    New { initial_url: String },
    Activate { tab_id: String },
    Close { tab_id: String },
}

pub enum TabsView {
    List,
    New { initial_url: Seq<char> },
    Activate { tab_id: Seq<char> },
    Close { tab_id: Seq<char> },
}

impl View for BrowserTabsRequest {
    type V = TabsView;

    open spec fn view(&self) -> TabsView {
        match self {
            BrowserTabsRequest::List => TabsView::List,
            BrowserTabsRequest::New { initial_url } => TabsView::New { initial_url: initial_url@ },
            BrowserTabsRequest::Activate { tab_id } => TabsView::Activate { tab_id: tab_id@ },
            BrowserTabsRequest::Close { tab_id } => TabsView::Close { tab_id: tab_id@ },
        }
    }
}

pub open spec fn tabs_request_of(args: Members) -> Result<TabsView, Refusal> {
    match optional_string_of(args, "action"@) {
        None => Err(missing_refusal("action"@)),
        Some(action) => if action == "list"@ {
            Ok(TabsView::List)
        } else if action == "new"@ {
            Ok(TabsView::New {
                initial_url: match optional_string_of(args, "url"@) {
                    Some(u) => u,
                    None => "about:blank"@,
                },
            })
        } else if action == "activate"@ || action == "close"@ {
            match optional_string_of(args, "tab_id"@) {
                None => Err(missing_refusal("tab_id"@)),
                Some(tab_id) => if action == "activate"@ {
                    Ok(TabsView::Activate { tab_id })
                } else {
                    Ok(TabsView::Close { tab_id })
                },
            }
        } else {
            Err(("invalid_tabs_action"@, "browser_tabs action 不合法"@))
        },
    }
}

/// What a `browser_tabs` call asks for. A new tab's address is checked by
/// the browser authority before the tab is opened.
pub fn browser_tabs_request(arguments: &Vec<(String, JsonValue)>) -> (r: Result<BrowserTabsRequest, BrowserToolError>)
    ensures
        match r {
            Ok(t) => tabs_request_of(json_entries_view(arguments@)) == Ok::<TabsView, Refusal>(t@),
            Err(e) => tabs_request_of(json_entries_view(arguments@)) matches Err(refusal) && refused_as(e, refusal),
        },
{
    proof {
        reveal_strlit("activate");
        reveal_strlit("close");
    }
    let action = match string_arg(arguments, "action") {
        Ok(a) => a,
        Err(e) => {
            return Err(e);
        },
    };
    if str_eq(action.as_str(), "list") {
        return Ok(BrowserTabsRequest::List);
    }
    if str_eq(action.as_str(), "new") {
        let initial_url = match optional_string(arguments, "url") {
            Some(u) => u,
            None => crate::text::str_to_string("about:blank"),
        };
        return Ok(BrowserTabsRequest::New { initial_url });
    }
    let activate = str_eq(action.as_str(), "activate");
    let close = str_eq(action.as_str(), "close");
    if !activate && !close {
        return Err(refuse("invalid_tabs_action", "browser_tabs action 不合法"));
    }
    let tab_id = match string_arg(arguments, "tab_id") {
        Ok(t) => t,
        Err(e) => {
            return Err(e);
        },
    };
    if activate {
        Ok(BrowserTabsRequest::Activate { tab_id })
    } else {
        Ok(BrowserTabsRequest::Close { tab_id })
    }
}

/// `browser-tool-tab-{now}-{sequence}`: the id of a tab a tool opens.
pub fn browser_tool_tab_id(now_ms: u64, sequence: u64) -> (r: String)
    ensures
        r@ == "browser-tool-tab-"@ + crate::text::decimal(now_ms as nat) + "-"@ + crate::text::decimal(sequence as nat),
{
    let mut id = crate::text::str_to_string("browser-tool-tab-");
    id.append(crate::text::u64_to_decimal(now_ms).as_str());
    id.append("-");
    id.append(crate::text::u64_to_decimal(sequence).as_str());
    id
}

/// A fixed viewport that a call gets through is one the surface supports:
/// its size and scale factor are in range, and its device type is the one
/// its width stands for.
pub proof fn lemma_fixed_viewport_supported(args: Members, v: BrowserViewport)
    requires
        viewport_request_of(args) == Ok::<ViewportRequest, Refusal>(ViewportRequest::SetFixed(v)),
    ensures
        viewport_supported(v.width, v.height),
        500 <= v.device_scale_factor_millis <= 4000,
        v.device_type == device_type_for_width(v.width),
{
}

/// A navigation that a call gets through waits between 1 and 60000
/// milliseconds, where it names a timeout.
pub proof fn lemma_navigation_timeout_bounded(args: Members, n: NavigationView)
    requires
        navigation_of(args) == Ok::<NavigationView, Refusal>(n),
    ensures
        match n {
            NavigationView::Url { timeout_ms, .. } => timeout_ms matches Some(t) ==> 1 <= t <= 60000,
            NavigationView::Back { timeout_ms } => timeout_ms matches Some(t) ==> 1 <= t <= 60000,
            NavigationView::Forward { timeout_ms } => timeout_ms matches Some(t) ==> 1 <= t <= 60000,
            NavigationView::Reload { timeout_ms, .. } => timeout_ms matches Some(t) ==> 1 <= t <= 60000,
        },
{
}

/// Screenshot options that a call gets through have one scope at most, and
/// a quality of at most 100, for JPEG or WebP only.
pub proof fn lemma_screenshot_options_consistent(args: Members, has_clip: bool, o: ScreenshotOptions)
    requires
        screenshot_options_of(args, has_clip) == Ok::<ScreenshotOptions, Refusal>(o),
    ensures
        crate::browser::scope_count(optional_string_of(args, "element_ref"@) is Some, has_clip, o.full_page) <= 1,
        o.quality matches Some(q) ==> q <= 100 && o.format != BrowserScreenshotFormat::Png,
{
}

} // verus!
