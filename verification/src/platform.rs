//! What the platform can do, and how the windows are placed, hidden and composited on it.

use vstd::prelude::*;
use vstd::string::*;

use crate::text::{
    ascii_lower_text, ascii_lowered, contains_text, has, opt_view, same_but_for_case, same_text,
    signed_decimal, signed_decimal_of, trim, trimmed, views,
};

verus! {

// ── Capabilities ─────────────────────────────────────────────────────────────

/// How far a feature works here.
#[derive(Clone, Copy, Debug, PartialEq, Eq, Structural)]
pub enum Capability {
    Available,
    PermissionRequired,
    Degraded,
}

impl Capability {
    /// What the user is shown.
    pub fn label(self) -> (r: &'static str)
        ensures
            r@ == match self {
                Capability::Available => "可用"@,
                Capability::PermissionRequired => "需要授权"@,
                Capability::Degraded => "受限"@,
            },
    {
        match self {
            Capability::Available => "可用",
            Capability::PermissionRequired => "需要授权",
            Capability::Degraded => "受限",
        }
    }
}

/// The platform the program runs on.
pub enum Platform {
    Windows,
    MacOs,
    Linux { wayland: bool, hyprland: bool },
    /// Any other, by name.
    Other(String),
}

/// What works on a platform.
pub struct Capabilities {
    pub platform_name: String,
    pub session_name: &'static str,
    pub global_ptt: Capability,
    pub overlay_position: Capability,
    pub synthetic_paste: Capability,
    pub permission_hint: Option<&'static str>,
}

/// Whether the compositor lets neither keys be followed, nor windows be placed, nor keys be
/// simulated without a backend of its own.
pub open spec fn is_plain_wayland(p: Platform) -> bool {
    p matches Platform::Linux { wayland, hyprland } && wayland && !hyprland
}

impl Capabilities {
    /// Whether this is what works on a platform.
    pub open spec fn describes(self, p: Platform) -> bool {
        match p {
            Platform::Windows => {
                &&& self.platform_name@ == "Windows"@
                &&& self.session_name@ == "Win32"@
                &&& self.global_ptt == Capability::Available
                &&& self.overlay_position == Capability::Available
                &&& self.synthetic_paste == Capability::Available
                &&& self.permission_hint is None
            },
            Platform::MacOs => {
                &&& self.platform_name@ == "macOS"@
                &&& self.session_name@ == "AppKit"@
                &&& self.global_ptt == Capability::PermissionRequired
                &&& self.overlay_position == Capability::Available
                &&& self.synthetic_paste == Capability::PermissionRequired
                &&& self.permission_hint matches Some(h) && h@
                    == "需要在系统设置中允许麦克风、辅助功能与输入监控。"@
            },
            Platform::Linux { wayland, hyprland } => {
                &&& self.platform_name@ == "Linux"@
                &&& self.session_name@ == (if wayland {
                    "Wayland"@
                } else {
                    "X11"@
                })
                &&& self.global_ptt == (if is_plain_wayland(p) {
                    Capability::Degraded
                } else {
                    Capability::Available
                })
                &&& self.overlay_position == self.global_ptt
                &&& self.synthetic_paste == self.global_ptt
                &&& match self.permission_hint {
                    Some(h) => is_plain_wayland(p) && h@
                        == "当前为通用 Wayland：需要合成器提供全局 PTT、悬浮窗定位和模拟粘贴。"@,
                    None => !is_plain_wayland(p),
                }
            },
            Platform::Other(name) => {
                &&& self.platform_name@ == name@
                &&& self.session_name@ == "unsupported"@
                &&& self.global_ptt == Capability::Degraded
                &&& self.overlay_position == Capability::Degraded
                &&& self.synthetic_paste == Capability::Degraded
                &&& self.permission_hint matches Some(h) && h@ == "当前平台尚未经过支持验证。"@
            },
        }
    }
}

/// What works on a platform.
pub fn capabilities(platform: &Platform) -> (r: Capabilities)
    ensures
        r.describes(*platform),
{
    match platform {
        Platform::Windows => Capabilities {
            platform_name: "Windows".to_owned(),
            session_name: "Win32",
            global_ptt: Capability::Available,
            overlay_position: Capability::Available,
            synthetic_paste: Capability::Available,
            permission_hint: None,
        },
        Platform::MacOs => Capabilities {
            platform_name: "macOS".to_owned(),
            session_name: "AppKit",
            global_ptt: Capability::PermissionRequired,
            overlay_position: Capability::Available,
            synthetic_paste: Capability::PermissionRequired,
            permission_hint: Some("需要在系统设置中允许麦克风、辅助功能与输入监控。"),
        },
        Platform::Linux { wayland, hyprland } => {
            let plain = *wayland && !*hyprland;
            let reach = if plain {
                Capability::Degraded
            } else {
                Capability::Available
            };
            Capabilities {
                platform_name: "Linux".to_owned(),
                session_name: if *wayland {
                    "Wayland"
                } else {
                    "X11"
                },
                global_ptt: reach,
                overlay_position: reach,
                synthetic_paste: reach,
                permission_hint: if plain {
                    Some(
                        "当前为通用 Wayland：需要合成器提供全局 PTT、悬浮窗定位和模拟粘贴。",
                    )
                } else {
                    None
                },
            }
        },
        Platform::Other(name) => Capabilities {
            platform_name: name.clone(),
            session_name: "unsupported",
            global_ptt: Capability::Degraded,
            overlay_position: Capability::Degraded,
            synthetic_paste: Capability::Degraded,
            permission_hint: Some("当前平台尚未经过支持验证。"),
        },
    }
}

/// A hint is given exactly where something does not work without the user's help.
pub proof fn hints_come_with_limits(c: Capabilities, p: Platform)
    requires
        c.describes(p),
    ensures
        c.permission_hint is Some <==> !(c.global_ptt == Capability::Available
            && c.overlay_position == Capability::Available && c.synthetic_paste
            == Capability::Available),
{
}

/// Whether this is a Hyprland session: it left its signature, or names itself as the desktop.
pub fn is_hyprland_session(signature_set: bool, desktop: Option<&str>) -> (r: bool)
    ensures
        r == (signature_set || (desktop matches Some(d) && has(
            ascii_lower_text(d@),
            "hyprland"@,
        ))),
{
    if signature_set {
        return true;
    }
    match desktop {
        Some(d) => contains_text(ascii_lowered(d).as_str(), "hyprland"),
        None => false,
    }
}

/// Whether this is a Wayland session: it has a display, or says so.
pub fn is_wayland_session(display_set: bool, session_type: Option<&str>) -> (r: bool)
    ensures
        r == (display_set || (session_type matches Some(t) && ascii_lower_text(t@)
            == ascii_lower_text("wayland"@))),
{
    if display_set {
        return true;
    }
    match session_type {
        Some(t) => same_but_for_case(t, "wayland"),
        None => false,
    }
}

// ── Hiding the settings window ───────────────────────────────────────────────

/// How to hide the settings window.
#[derive(Clone, Copy, Debug, PartialEq, Eq, Structural)]
pub enum HidePlan {
    /// Move it to a workspace of its own, since the compositor honours nothing else.
    Park,
    Minimize,
    Unmap,
}

/// How to bring the settings window back.
#[derive(Clone, Copy, Debug, PartialEq, Eq, Structural)]
pub enum ShowPlan {
    /// Move it to the active workspace and focus it.
    Restore,
    /// The compositor leaves this to the user.
    Nothing,
    MapAndFocus,
}

/// How to hide the settings window in a Linux session.
pub fn hide_main_window(wayland: bool, hyprland: bool) -> (r: HidePlan)
    ensures
        r == (if hyprland {
            HidePlan::Park
        } else if wayland {
            HidePlan::Minimize
        } else {
            HidePlan::Unmap
        }),
{
    if hyprland {
        HidePlan::Park
    } else if wayland {
        HidePlan::Minimize
    } else {
        HidePlan::Unmap
    }
}

/// How to bring the settings window back in a Linux session.
pub fn show_main_window(wayland: bool, hyprland: bool) -> (r: ShowPlan)
    ensures
        r == (if hyprland {
            ShowPlan::Restore
        } else if wayland {
            ShowPlan::Nothing
        } else {
            ShowPlan::MapAndFocus
        }),
{
    if hyprland {
        ShowPlan::Restore
    } else if wayland {
        ShowPlan::Nothing
    } else {
        ShowPlan::MapAndFocus
    }
}

/// The class Hyprland knows the settings window by.
pub const HYPRLAND_WINDOW_CLASS: &'static str = "io.github.billowsand.auto-voice";

/// The workspace the settings window waits on.
pub const HYPRLAND_PARK_WORKSPACE: &'static str = "special:auto-voice";

/// What `serde_json` reads of an array of objects: two text fields of each. `None` where the
/// bytes are no JSON array.
pub uninterp spec fn json_text_fields(
    json: Seq<u8>,
    first: Seq<char>,
    second: Seq<char>,
) -> Option<Seq<(Option<Seq<char>>, Option<Seq<char>>)>>;

/// The contents of a list of field pairs.
pub open spec fn pair_views(list: Seq<(Option<String>, Option<String>)>) -> Seq<
    (Option<Seq<char>>, Option<Seq<char>>),
> {
    list.map_values(|p: (Option<String>, Option<String>)| (opt_view(p.0), opt_view(p.1)))
}

/// Parses bytes with `serde_json::from_slice` and reads two text fields of each object in the
/// array they hold. Trusted: the outcome depends on the bytes and the field names alone. What
/// counts as JSON is left to the parser.
#[verifier::external_body]
fn text_fields(json: &[u8], first: &str, second: &str) -> (r: Option<
    Vec<(Option<String>, Option<String>)>,
>)
    ensures
        match r {
            Some(list) => json_text_fields(json@, first@, second@) == Some(pair_views(list@)),
            None => json_text_fields(json@, first@, second@) is None,
        },
{
    let value: serde_json::Value = serde_json::from_slice(json).ok()?;
    let list = value.as_array()?;
    let field = |object: &serde_json::Value, name: &str| {
        object.get(name).and_then(|v| v.as_str()).map(str::to_owned)
    };
    Some(list.iter().map(|o| (field(o, first), field(o, second))).collect())
}

/// What `serde_json` reads of an object: one integer field.
pub uninterp spec fn json_integer_field(json: Seq<u8>, field: Seq<char>) -> Option<i64>;

/// Parses bytes with `serde_json::from_slice` and reads an integer field of the object they hold.
/// Trusted: the outcome depends on the bytes and the field name alone.
#[verifier::external_body]
fn integer_field(json: &[u8], field: &str) -> (r: Option<i64>)
    ensures
        r == json_integer_field(json@, field@),
{
    serde_json::from_slice::<serde_json::Value>(json).ok()?.get(field)?.as_i64()
}

/// The address of the first window of a class.
pub open spec fn address_of_class(
    windows: Seq<(Option<Seq<char>>, Option<Seq<char>>)>,
    class: Seq<char>,
) -> Option<Seq<char>>
    decreases windows.len(),
{
    if windows.len() == 0 {
        None
    } else if windows[0].0 == Some(class) {
        windows[0].1
    } else {
        address_of_class(windows.drop_first(), class)
    }
}

/// The address of the settings window among the windows the compositor lists, by class and
/// address.
pub fn main_window_among(windows: &Vec<(Option<String>, Option<String>)>) -> (r: Option<String>)
    ensures
        opt_view(r) == address_of_class(pair_views(windows@), HYPRLAND_WINDOW_CLASS@),
        opt_view(r) == address_of_class(
            pair_views(windows@),
            "io.github.billowsand.auto-voice"@,
        ),
{
    let ghost all = pair_views(windows@);
    let n: usize = windows.len();
    let mut i: usize = 0;
    proof {
        assert(all.skip(0) =~= all);
    }
    while i < n
        invariant
            i <= n,
            n == windows@.len(),
            all == pair_views(windows@),
            address_of_class(all, HYPRLAND_WINDOW_CLASS@) == address_of_class(
                all.skip(i as int),
                HYPRLAND_WINDOW_CLASS@,
            ),
        decreases n - i,
    {
        let ghost k = i as int;
        proof {
            assert(all.skip(k)[0] == all[k]);
            assert(all.skip(k).drop_first() =~= all.skip(k + 1));
        }
        let found = match &windows[i].0 {
            Some(class) => same_text(class.as_str(), HYPRLAND_WINDOW_CLASS),
            None => false,
        };
        if found {
            return windows[i].1.clone();
        }
        i = i + 1;
    }
    None
}

/// The address Hyprland gave the settings window, read from the output of its window list;
/// `None` where the command failed or the window is not there yet.
pub fn hyprland_main_window_address(success: bool, stdout: &[u8]) -> (r: Option<String>)
    ensures
        opt_view(r) == (match json_text_fields(stdout@, "class"@, "address"@) {
            Some(windows) => if success {
                address_of_class(windows, HYPRLAND_WINDOW_CLASS@)
            } else {
                None
            },
            None => None,
        }),
{
    if !success {
        return None;
    }
    match text_fields(stdout, "class", "address") {
        Some(windows) => main_window_among(&windows),
        None => None,
    }
}

/// The active workspace, read from the output of Hyprland's command.
pub fn hyprland_active_workspace_id(success: bool, stdout: &[u8]) -> (r: Option<i64>)
    ensures
        r == (if success {
            json_integer_field(stdout@, "id"@)
        } else {
            None
        }),
{
    if !success {
        return None;
    }
    integer_field(stdout, "id")
}

/// The command that moves a window to a workspace. Newer compositors expect a Lua expression.
pub open spec fn move_command(lua: bool, silent: bool, workspace: Seq<char>, address: Seq<char>) -> Seq<
    char,
> {
    if lua {
        "hl.dsp.window.move({ workspace = \""@ + workspace + "\", window = \"address:"@ + address
            + "\" })"@
    } else if silent {
        "movetoworkspacesilent "@ + workspace + ",address:"@ + address
    } else {
        "movetoworkspace "@ + workspace + ",address:"@ + address
    }
}

/// The command that focuses a window.
pub open spec fn focus_command(lua: bool, address: Seq<char>) -> Seq<char> {
    if lua {
        "hl.dsp.focus({ window = \"address:"@ + address + "\" })"@
    } else {
        "focuswindow address:"@ + address
    }
}

fn move_text(lua: bool, silent: bool, workspace: &str, address: &str) -> (r: String)
    ensures
        r@ == move_command(lua, silent, workspace@, address@),
{
    if lua {
        let mut c = "hl.dsp.window.move({ workspace = \"".to_owned();
        c.append(workspace);
        c.append("\", window = \"address:");
        c.append(address);
        c.append("\" })");
        c
    } else {
        let mut c = if silent {
            "movetoworkspacesilent ".to_owned()
        } else {
            "movetoworkspace ".to_owned()
        };
        c.append(workspace);
        c.append(",address:");
        c.append(address);
        c
    }
}

fn focus_text(lua: bool, address: &str) -> (r: String)
    ensures
        r@ == focus_command(lua, address@),
{
    if lua {
        let mut c = "hl.dsp.focus({ window = \"address:".to_owned();
        c.append(address);
        c.append("\" })");
        c
    } else {
        let mut c = "focuswindow address:".to_owned();
        c.append(address);
        c
    }
}

/// What to dispatch to park the settings window.
pub fn hyprland_park_main_window(lua: bool, address: &str) -> (r: String)
    ensures
        r@ == move_command(lua, true, HYPRLAND_PARK_WORKSPACE@, address@),
        r@ == move_command(lua, true, "special:auto-voice"@, address@),
{
    move_text(lua, true, HYPRLAND_PARK_WORKSPACE, address)
}

/// What to dispatch, one after the other, to bring the settings window back: to the active
/// workspace where that is known, and into focus.
pub fn hyprland_restore_main_window(lua: bool, workspace: Option<i64>, address: &str) -> (r: Vec<
    String,
>)
    ensures
        views(r@) == (match workspace {
            Some(id) => seq![
                move_command(lua, false, signed_decimal(id as int), address@),
                focus_command(lua, address@),
            ],
            None => seq![focus_command(lua, address@)],
        }),
{
    let mut commands: Vec<String> = Vec::new();
    if let Some(id) = workspace {
        commands.push(move_text(lua, false, signed_decimal_of(id).as_str(), address));
    }
    commands.push(focus_text(lua, address));
    proof {
        match workspace {
            Some(id) => {
                assert(views(commands@) =~= seq![
                    move_command(lua, false, signed_decimal(id as int), address@),
                    focus_command(lua, address@),
                ]);
            },
            None => {
                assert(views(commands@) =~= seq![focus_command(lua, address@)]);
            },
        }
    }
    commands
}

// ── Placing the overlay ──────────────────────────────────────────────────────

/// A rectangle on the screen, in pixels.
#[derive(Clone, Copy, Debug, PartialEq, Eq, Structural)]
pub struct ScreenRect {
    pub left: i32,
    pub top: i32,
    pub right: i32,
    pub bottom: i32,
}

/// A point on the screen, in half pixels.
#[derive(Clone, Copy, Debug, PartialEq, Eq, Structural)]
pub struct HalfPoint {
    pub x: i64,
    pub y: i64,
}

/// A value kept between two bounds; the lower one wins.
pub open spec fn kept_within(v: int, low: int, high: int) -> int {
    if v > high && high > low {
        high
    } else if v > low && high > low {
        v
    } else {
        low
    }
}

fn keep_within(v: i64, low: i64, high: i64) -> (r: i64)
    ensures
        r == kept_within(v as int, low as int, high as int),
{
    if v > high && high > low {
        high
    } else if v > low && high > low {
        v
    } else {
        low
    }
}

/// Where the overlay of a size goes, in half pixels: to the middle of the work area, but not closer
/// than eight pixels to its left and upper edge.
pub open spec fn placed_origin(work: ScreenRect, size: (i32, i32)) -> (int, int) {
    (
        kept_within(
            work.left + work.right - size.0,
            2 * (work.left + 8),
            2 * (work.right - size.0 - 8),
        ),
        kept_within(
            work.top + work.bottom - size.1,
            2 * (work.top + 8),
            2 * (work.bottom - size.1 - 8),
        ),
    )
}

fn centred(work: ScreenRect, size: (i32, i32)) -> (r: HalfPoint)
    ensures
        (r.x as int, r.y as int) == placed_origin(work, size),
{
    HalfPoint {
        x: keep_within(
            work.left as i64 + work.right as i64 - size.0 as i64,
            2 * (work.left as i64 + 8),
            2 * (work.right as i64 - size.0 as i64 - 8),
        ),
        y: keep_within(
            work.top as i64 + work.bottom as i64 - size.1 as i64,
            2 * (work.top as i64 + 8),
            2 * (work.bottom as i64 - size.1 as i64 - 8),
        ),
    }
}

/// Where the overlay of a size goes: to the middle of the active monitor's work area, wherever the
/// caret is and whatever window is in front. `None` where the work area is not known.
pub fn overlay_origin(work: Option<ScreenRect>, size: (i32, i32)) -> (r: Option<HalfPoint>)
    ensures
        match work {
            Some(w) => r matches Some(p) && (p.x as int, p.y as int) == placed_origin(w, size),
            None => r is None,
        },
{
    match work {
        Some(w) => Some(centred(w, size)),
        None => None,
    }
}

/// The larger of two numbers.
pub open spec fn at_least(v: int, low: int) -> int {
    if v >= low {
        v
    } else {
        low
    }
}

/// Where the overlay of a size goes while only the size of the monitor is known: centred from left
/// to right and above the taskbar, 110 pixels off the lower edge, but eight pixels at least off the
/// left and upper edge.
pub fn overlay_fallback_origin(size: (i32, i32), monitor: (i32, i32)) -> (r: HalfPoint)
    ensures
        r.x == at_least(monitor.0 - size.0, 16),
        r.y == at_least(2 * (monitor.1 - size.1 - 110), 16),
{
    let x: i64 = monitor.0 as i64 - size.0 as i64;
    let y: i64 = 2 * (monitor.1 as i64 - size.1 as i64 - 110);
    HalfPoint {
        x: if x >= 16 {
            x
        } else {
            16
        },
        y: if y >= 16 {
            y
        } else {
            16
        },
    }
}

/// The overlay stands in the middle: where the work area leaves it room, what is free to its left
/// is as wide as what is free to its right, and the same above and below.
pub proof fn the_overlay_is_centred(work: ScreenRect, size: (i32, i32))
    ensures
        ({
            let (x, y) = placed_origin(work, size);
            &&& work.right - work.left >= size.0 + 16 ==> x - 2 * work.left == 2 * work.right - (x
                + 2 * size.0)
            &&& work.bottom - work.top >= size.1 + 16 ==> y - 2 * work.top == 2 * work.bottom - (y
                + 2 * size.1)
        }),
{
}

/// The overlay never leaves the work area: its corner keeps off the left and upper edge, and
/// where the area is large enough the whole overlay keeps off the other edges too.
pub proof fn the_overlay_stays_on_screen(work: ScreenRect, size: (i32, i32))
    ensures
        ({
            let (x, y) = placed_origin(work, size);
            &&& x >= 2 * (work.left + 8)
            &&& y >= 2 * (work.top + 8)
            &&& work.right - work.left >= size.0 + 16 ==> x + 2 * size.0 <= 2 * (work.right - 8)
            &&& work.bottom - work.top >= size.1 + 16 ==> y + 2 * size.1 <= 2 * (work.bottom - 8)
        }),
{
}

// ── Compositing the overlay ──────────────────────────────────────────────────

/// How the compositor is told which parts of the overlay are see-through.
#[derive(Clone, Copy, Debug, PartialEq, Eq, Structural)]
pub enum OverlayCompositing {
    /// Each pixel is blended by its alpha.
    PerPixelAlpha,
    /// One colour is punched out; edges are ragged.
    ColorKey,
}

impl OverlayCompositing {
    /// Whether partial alpha may be relied on: translucent fills, soft shadows, smooth edges.
    pub fn blends(self) -> (r: bool)
        ensures
            r == (self == OverlayCompositing::PerPixelAlpha),
    {
        self == OverlayCompositing::PerPixelAlpha
    }
}

/// Everywhere but on Windows the alpha channel is composited as it is, and nothing has to be
/// prepared.
pub fn prepare_overlay_window(_window_title: &str) -> (r: Option<OverlayCompositing>)
    ensures
        r == Some(OverlayCompositing::PerPixelAlpha),
{
    Some(OverlayCompositing::PerPixelAlpha)
}

/// Whether the user insists on the colour key.
pub fn wants_color_key(setting: Option<&str>) -> (r: bool)
    ensures
        r == (setting matches Some(s) && ascii_lower_text(trim(s@)) == "colorkey"@),
{
    match setting {
        Some(s) => same_text(ascii_lowered(trimmed(s).as_str()).as_str(), "colorkey"),
        None => false,
    }
}

/// What to do with the overlay's native window on Windows.
#[derive(Clone, Copy, Debug, PartialEq, Eq, Structural)]
pub enum OverlaySetup {
    /// The window does not exist yet; try again with the next frame.
    Retry,
    /// Layer it and punch out black.
    UseColorKey,
    /// Take the layer off and ask for blending.
    AskForBlending,
}

/// How to begin with the overlay's native window.
pub fn begin_overlay_setup(found: bool, setting: Option<&str>) -> (r: OverlaySetup)
    ensures
        r == (if !found {
            OverlaySetup::Retry
        } else if setting matches Some(s) && ascii_lower_text(trim(s@)) == "colorkey"@ {
            OverlaySetup::UseColorKey
        } else {
            OverlaySetup::AskForBlending
        }),
{
    if !found {
        OverlaySetup::Retry
    } else if wants_color_key(setting) {
        OverlaySetup::UseColorKey
    } else {
        OverlaySetup::AskForBlending
    }
}

/// What came of asking for blending: a negative result means that it was refused, and the colour
/// key has to do.
pub fn compositing_after(result: i32) -> (r: OverlayCompositing)
    ensures
        r == (if result < 0 {
            OverlayCompositing::ColorKey
        } else {
            OverlayCompositing::PerPixelAlpha
        }),
{
    if result < 0 {
        OverlayCompositing::ColorKey
    } else {
        OverlayCompositing::PerPixelAlpha
    }
}

/// The part of the overlay that is shown: all but the outermost pixel.
pub fn visible_region(window: ScreenRect) -> (r: Option<(i32, i32, i32, i32)>)
    ensures
        match r {
            Some(region) => region.0 == 1 && region.1 == 1 && region.2 == window.right - window.left
                - 1 && region.3 == window.bottom - window.top - 1,
            None => !(i32::MIN <= window.right - window.left - 1 <= i32::MAX && i32::MIN
                <= window.bottom - window.top - 1 <= i32::MAX),
        },
{
    let w: i64 = window.right as i64 - window.left as i64 - 1;
    let h: i64 = window.bottom as i64 - window.top as i64 - 1;
    let low: i64 = -2_147_483_648;
    let high: i64 = 2_147_483_647;
    if low <= w && w <= high && low <= h && h <= high {
        Some((1, 1, w as i32, h as i32))
    } else {
        None
    }
}

/// Window style: the window is layered.
pub const WS_EX_LAYERED: u64 = 0x0008_0000;

/// Window style: the border has a raised edge.
pub const WS_EX_WINDOWEDGE: u64 = 0x0000_0100;

/// Window style: the window has a title bar.
pub const WS_CAPTION: u64 = 0x00C0_0000;

/// Window style: the window has a thin border.
pub const WS_BORDER: u64 = 0x0080_0000;

/// A style with one more bit set.
pub fn with_bits(style: u64, bits: u64) -> (r: u64)
    ensures
        r == style | bits,
        r & bits == bits,
        r & !bits == style & !bits,
{
    proof {
        assert((style | bits) & bits == bits) by (bit_vector);
        assert((style | bits) & !bits == style & !bits) by (bit_vector);
    }
    style | bits
}

/// A style with some bits cleared.
pub fn without_bits(style: u64, bits: u64) -> (r: u64)
    ensures
        r == style & !bits,
        r & bits == 0,
        r & !bits == style & !bits,
{
    proof {
        assert((style & !bits) & bits == 0) by (bit_vector);
        assert((style & !bits) & !bits == style & !bits) by (bit_vector);
    }
    style & !bits
}

/// What works by platform: everything on Windows, on X11 and under Hyprland; on macOS what touches
/// other programs wants permission; under another Wayland compositor and on a platform nobody has
/// tried nothing can be relied on.
pub proof fn what_works_goes_by_the_platform(c: Capabilities, p: Platform)
    requires
        c.describes(p),
    ensures
        ({
            let all = c.global_ptt == Capability::Available && c.overlay_position
                == Capability::Available && c.synthetic_paste == Capability::Available;
            let none = c.global_ptt == Capability::Degraded && c.overlay_position
                == Capability::Degraded && c.synthetic_paste == Capability::Degraded;
            match p {
                Platform::Windows => all && c.platform_name@ == "Windows"@ && c.session_name@
                    == "Win32"@,
                Platform::MacOs => c.global_ptt == Capability::PermissionRequired
                    && c.synthetic_paste == Capability::PermissionRequired && c.overlay_position
                    == Capability::Available && c.platform_name@ == "macOS"@ && c.session_name@
                    == "AppKit"@,
                Platform::Linux { wayland, hyprland } => {
                    &&& hyprland || !wayland ==> all && c.permission_hint is None
                    &&& wayland && !hyprland ==> none
                    &&& c.platform_name@ == "Linux"@
                    &&& wayland ==> c.session_name@ == "Wayland"@
                    &&& !wayland ==> c.session_name@ == "X11"@
                },
                Platform::Other(name) => none && c.platform_name@ == name@ && c.session_name@
                    == "unsupported"@,
            }
        }),
        p is MacOs ==> (c.permission_hint matches Some(h) && h@
            == "需要在系统设置中允许麦克风、辅助功能与输入监控。"@),
        p is Other ==> (c.permission_hint matches Some(h) && h@ == "当前平台尚未经过支持验证。"@),
        p is Linux && c.permission_hint is Some ==> c.permission_hint->0@
            == "当前为通用 Wayland：需要合成器提供全局 PTT、悬浮窗定位和模拟粘贴。"@,
{
}

/// The window that is found is the first of its class: none listed before it has the class, and where
/// none has, none is found.
pub proof fn the_first_window_of_a_class_is_found(
    windows: Seq<(Option<Seq<char>>, Option<Seq<char>>)>,
    class: Seq<char>,
    i: int,
)
    ensures
        0 <= i < windows.len() && windows[i].0 == Some(class) && (forall|j: int|
            0 <= j < i ==> (#[trigger] windows[j]).0 != Some(class)) ==> address_of_class(
            windows,
            class,
        ) == windows[i].1,
        (forall|j: int| 0 <= j < windows.len() ==> (#[trigger] windows[j]).0 != Some(class))
            ==> address_of_class(windows, class) is None,
    decreases windows.len(),
{
    if windows.len() > 0 && windows[0].0 != Some(class) {
        let rest = windows.drop_first();
        the_first_window_of_a_class_is_found(rest, class, i - 1);
        if 0 <= i < windows.len() && windows[i].0 == Some(class) && (forall|j: int|
            0 <= j < i ==> (#[trigger] windows[j]).0 != Some(class)) {
            assert(rest[i - 1] == windows[i]);
            assert forall|j: int| 0 <= j < i - 1 implies (#[trigger] rest[j]).0 != Some(class) by {
                assert(rest[j] == windows[j + 1]);
            }
        }
        if forall|j: int| 0 <= j < windows.len() ==> (#[trigger] windows[j]).0 != Some(class) {
            assert forall|j: int| 0 <= j < rest.len() implies (#[trigger] rest[j]).0 != Some(
                class,
            ) by {
                assert(rest[j] == windows[j + 1]);
            }
        }
    }
}

/// Pairs of fields are as they are listed.
pub proof fn fields_are_as_listed(list: Seq<(Option<String>, Option<String>)>, i: int)
    ensures
        pair_views(list).len() == list.len(),
        0 <= i < list.len() ==> pair_views(list)[i] == (opt_view(list[i].0), opt_view(list[i].1)),
{
}

/// The commands to the compositor name the window by its address, and where it is to go.
pub proof fn commands_name_window_and_workspace(
    silent: bool,
    workspace: Seq<char>,
    address: Seq<char>,
)
    ensures
        move_command(true, silent, workspace, address)
            == "hl.dsp.window.move({ workspace = \""@ + workspace + "\", window = \"address:"@
            + address + "\" })"@,
        move_command(false, true, workspace, address) == "movetoworkspacesilent "@ + workspace
            + ",address:"@ + address,
        move_command(false, false, workspace, address) == "movetoworkspace "@ + workspace
            + ",address:"@ + address,
        focus_command(true, address) == "hl.dsp.focus({ window = \"address:"@ + address
            + "\" })"@,
        focus_command(false, address) == "focuswindow address:"@ + address,
{
}

/// Where there is no room to keep off both edges, the overlay keeps eight pixels off the left or the
/// upper one.
pub proof fn a_cramped_overlay_keeps_to_the_corner(work: ScreenRect, size: (i32, i32))
    ensures
        work.right - work.left <= size.0 + 16 ==> placed_origin(work, size).0 == 2 * (work.left + 8),
        work.bottom - work.top <= size.1 + 16 ==> placed_origin(work, size).1 == 2 * (work.top + 8),
{
}

/// The larger of two numbers is one of them and no less than either.
pub proof fn the_larger_is_no_less(v: int, low: int)
    ensures
        at_least(v, low) >= v,
        at_least(v, low) >= low,
        at_least(v, low) == v || at_least(v, low) == low,
{
}

}
