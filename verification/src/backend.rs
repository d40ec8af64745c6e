//! Display server and desktop session diagnostics, decided from the session's
//! environment variables.
use vstd::prelude::*;

use crate::text;
use crate::text::{chars_of, to_lower, string_of};

verus! {

broadcast use vstd::seq_lib::group_seq_properties;

/// Values of the session environment variables (`None` when unset or not
/// valid Unicode).
pub struct SessionEnv {
    pub xdg_session_type: Option<String>,
    pub wayland_display: Option<String>,
    pub display: Option<String>,
    pub xdg_runtime_dir: Option<String>,
    pub xdg_current_desktop: Option<String>,
    pub xauthority: Option<String>,
}

/// Value of a variable, empty when unset (`unwrap_or_default`).
pub open spec fn or_empty(v: Option<String>) -> Seq<char> {
    match v {
        Some(s) => s@,
        None => seq![],
    }
}

fn value_or_empty(v: &Option<String>) -> (r: Vec<char>)
    ensures
        r@ == or_empty(*v),
{
    match v {
        Some(s) => chars_of(s.as_str()),
        None => Vec::new(),
    }
}

fn lower_or_empty(v: &Option<String>) -> (r: Vec<char>)
    ensures
        r@ == text::lower_text(or_empty(*v)),
{
    let s = match v {
        Some(s) => to_lower(s.as_str()),
        None => {
            proof {
                reveal_strlit("");
            }
            assert(""@ == Seq::<char>::empty());
            to_lower("")
        },
    };
    chars_of(s.as_str())
}

fn has_lit(v: &Vec<char>, p: &str) -> (r: bool)
    ensures
        r == text::has_sub(v@, p@),
{
    text::contains(v, &chars_of(p))
}

fn equals_lit(v: &Vec<char>, p: &str) -> (r: bool)
    ensures
        r == (v@ == p@),
{
    text::chars_equal(v, &chars_of(p))
}

/// The kind of display server of the session.
#[derive(Debug, Clone, Copy, PartialEq, Eq, Structural)]
pub enum DisplayServer {
    Wayland,
    X11,
    XWayland,
    Unknown,
}

/// Wayland when the session type is `wayland` or a Wayland display is set
/// (XWayland when an X display is set too); X11 when the session type is
/// `x11` or an X display is set; Unknown otherwise.
pub open spec fn display_server_of(env: SessionEnv) -> DisplayServer {
    let t = text::lower_text(or_empty(env.xdg_session_type));
    let w = or_empty(env.wayland_display);
    let d = or_empty(env.display);
    if t == "wayland"@ || w.len() > 0 {
        if d.len() > 0 {
            DisplayServer::XWayland
        } else {
            DisplayServer::Wayland
        }
    } else if t == "x11"@ || d.len() > 0 {
        DisplayServer::X11
    } else {
        DisplayServer::Unknown
    }
}

pub open spec fn display_server_text(d: DisplayServer) -> Seq<char> {
    match d {
        DisplayServer::Wayland => "Wayland (Native)"@,
        DisplayServer::X11 => "X11 (Native)"@,
        DisplayServer::XWayland => "Wayland (with XWayland compatibility)"@,
        DisplayServer::Unknown => "Unknown Display Server"@,
    }
}

impl DisplayServer {
    /// Detects the display server from the session environment.
    pub fn detect(env: &SessionEnv) -> (r: DisplayServer)
        ensures
            r == display_server_of(*env),
    {
        let t = lower_or_empty(&env.xdg_session_type);
        let w = value_or_empty(&env.wayland_display);
        let d = value_or_empty(&env.display);
        if equals_lit(&t, "wayland") || w.len() > 0 {
            if d.len() > 0 {
                DisplayServer::XWayland
            } else {
                DisplayServer::Wayland
            }
        } else if equals_lit(&t, "x11") || d.len() > 0 {
            DisplayServer::X11
        } else {
            DisplayServer::Unknown
        }
    }

    pub fn to_string(&self) -> (r: String)
        ensures
            r@ == display_server_text(*self),
    {
        match self {
            DisplayServer::Wayland => String::from_str("Wayland (Native)"),
            DisplayServer::X11 => String::from_str("X11 (Native)"),
            DisplayServer::XWayland => String::from_str("Wayland (with XWayland compatibility)"),
            DisplayServer::Unknown => String::from_str("Unknown Display Server"),
        }
    }
}

// ---------------------------------------------------------------------------
// Wayland
// ---------------------------------------------------------------------------

/// Wayland session details.
pub struct WaylandDiagnostics {
    pub is_active: bool,
    pub socket_name: String,
    pub socket_path: Option<String>,
    pub compositor: String,
}

/// The socket path that is checked: the runtime directory joined with the
/// Wayland display, when both are set and non-empty.
pub open spec fn wayland_socket_candidate(env: SessionEnv) -> Option<Seq<char>> {
    let w = or_empty(env.wayland_display);
    let r = or_empty(env.xdg_runtime_dir);
    if w.len() > 0 && r.len() > 0 {
        Some(crate::paths::path_push(r, w))
    } else {
        None
    }
}

pub open spec fn compositor_text(desktop_lower: Seq<char>, active: bool) -> Seq<char> {
    if text::has_sub(desktop_lower, "gnome"@) {
        "Mutter (GNOME)"@
    } else if text::has_sub(desktop_lower, "kde"@) {
        "KWin (KDE)"@
    } else if text::has_sub(desktop_lower, "sway"@) {
        "Sway"@
    } else if text::has_sub(desktop_lower, "hyprland"@) {
        "Hyprland"@
    } else if active {
        "Generic Wayland Compositor"@
    } else {
        "None"@
    }
}

impl WaylandDiagnostics {
    /// The path of the Wayland socket to look for, if any.
    pub fn socket_candidate(env: &SessionEnv) -> (r: Option<String>)
        ensures
            text::opt_chars(r) == wayland_socket_candidate(*env),
    {
        let w = value_or_empty(&env.wayland_display);
        let rd = value_or_empty(&env.xdg_runtime_dir);
        if w.len() > 0 && rd.len() > 0 {
            Some(string_of(&crate::paths::path_push_exec(&rd, &w)))
        } else {
            None
        }
    }

    /// Wayland details of the session; `socket_exists` tells whether the
    /// candidate socket path exists.
    pub fn collect(env: &SessionEnv, socket_exists: bool) -> (r: WaylandDiagnostics)
        ensures
            r.is_active == (or_empty(env.wayland_display).len() > 0),
            text::opt_chars(r.socket_path) == if socket_exists {
                wayland_socket_candidate(*env)
            } else {
                None
            },
            r.socket_name@ == if r.is_active {
                or_empty(env.wayland_display)
            } else {
                "N/A"@
            },
            r.compositor@ == compositor_text(
                text::lower_text(or_empty(env.xdg_current_desktop)),
                r.is_active,
            ),
    {
        let w = value_or_empty(&env.wayland_display);
        let is_active = w.len() > 0;
        let socket_path = if socket_exists {
            WaylandDiagnostics::socket_candidate(env)
        } else {
            None
        };
        let desk = lower_or_empty(&env.xdg_current_desktop);
        let compositor = if has_lit(&desk, "gnome") {
            String::from_str("Mutter (GNOME)")
        } else if has_lit(&desk, "kde") {
            String::from_str("KWin (KDE)")
        } else if has_lit(&desk, "sway") {
            String::from_str("Sway")
        } else if has_lit(&desk, "hyprland") {
            String::from_str("Hyprland")
        } else if is_active {
            String::from_str("Generic Wayland Compositor")
        } else {
            String::from_str("None")
        };
        WaylandDiagnostics {
            is_active,
            socket_name: if is_active {
                string_of(&w)
            } else {
                String::from_str("N/A")
            },
            socket_path,
            compositor,
        }
    }
}

// ---------------------------------------------------------------------------
// X11
// ---------------------------------------------------------------------------

/// X11 session details.
pub struct X11Diagnostics {
    pub is_active: bool,
    pub display_name: String,
    pub xauthority: Option<String>,
    pub window_manager: String,
}

pub open spec fn window_manager_text(desktop_lower: Seq<char>, active: bool) -> Seq<char> {
    if text::has_sub(desktop_lower, "gnome"@) {
        "Mutter (GNOME)"@
    } else if text::has_sub(desktop_lower, "kde"@) {
        "KWin (KDE)"@
    } else if text::has_sub(desktop_lower, "xfce"@) {
        "Xfwm4 (XFCE)"@
    } else if text::has_sub(desktop_lower, "i3"@) {
        "i3wm"@
    } else if text::has_sub(desktop_lower, "openbox"@) {
        "Openbox"@
    } else if active {
        "Generic X11 Window Manager"@
    } else {
        "None"@
    }
}

impl X11Diagnostics {
    /// X11 details of the session. X11 counts as active when an X display is
    /// set and the session type is not `wayland`.
    pub fn collect(env: &SessionEnv) -> (r: X11Diagnostics)
        ensures
            r.is_active == (or_empty(env.display).len() > 0 && text::lower_text(
                or_empty(env.xdg_session_type),
            ) != "wayland"@),
            r.display_name@ == if or_empty(env.display).len() > 0 {
                or_empty(env.display)
            } else {
                "N/A"@
            },
            text::opt_chars(r.xauthority) == text::opt_chars(env.xauthority),
            r.window_manager@ == window_manager_text(
                text::lower_text(or_empty(env.xdg_current_desktop)),
                r.is_active,
            ),
    {
        let d = value_or_empty(&env.display);
        let t = lower_or_empty(&env.xdg_session_type);
        let is_active = d.len() > 0 && !equals_lit(&t, "wayland");
        let desk = lower_or_empty(&env.xdg_current_desktop);
        let window_manager = if has_lit(&desk, "gnome") {
            String::from_str("Mutter (GNOME)")
        } else if has_lit(&desk, "kde") {
            String::from_str("KWin (KDE)")
        } else if has_lit(&desk, "xfce") {
            String::from_str("Xfwm4 (XFCE)")
        } else if has_lit(&desk, "i3") {
            String::from_str("i3wm")
        } else if has_lit(&desk, "openbox") {
            String::from_str("Openbox")
        } else if is_active {
            String::from_str("Generic X11 Window Manager")
        } else {
            String::from_str("None")
        };
        X11Diagnostics {
            is_active,
            display_name: if d.len() > 0 {
                string_of(&d)
            } else {
                String::from_str("N/A")
            },
            xauthority: match &env.xauthority {
                Some(a) => Some(a.clone()),
                None => None,
            },
            window_manager,
        }
    }
}

// ---------------------------------------------------------------------------
// Platform
// ---------------------------------------------------------------------------

/// Display server, Wayland and X11 details of the session.
pub struct PlatformInfo {
    pub display_server: DisplayServer,
    pub wayland: WaylandDiagnostics,
    pub x11: X11Diagnostics,
}

/// What `PlatformInfo::collect` reports for the session environment `env`
/// when the Wayland socket exists or not.
pub open spec fn platform_fits(r: PlatformInfo, env: SessionEnv, wayland_socket_exists: bool) -> bool {
    let desktop = text::lower_text(or_empty(env.xdg_current_desktop));
    &&& r.display_server == display_server_of(env)
    &&& r.wayland.is_active == (or_empty(env.wayland_display).len() > 0)
    &&& text::opt_chars(r.wayland.socket_path) == if wayland_socket_exists {
        wayland_socket_candidate(env)
    } else {
        None
    }
    &&& r.wayland.socket_name@ == if r.wayland.is_active {
        or_empty(env.wayland_display)
    } else {
        "N/A"@
    }
    &&& r.wayland.compositor@ == compositor_text(desktop, r.wayland.is_active)
    &&& r.x11.is_active == (or_empty(env.display).len() > 0 && text::lower_text(
        or_empty(env.xdg_session_type),
    ) != "wayland"@)
    &&& r.x11.display_name@ == if or_empty(env.display).len() > 0 {
        or_empty(env.display)
    } else {
        "N/A"@
    }
    &&& text::opt_chars(r.x11.xauthority) == text::opt_chars(env.xauthority)
    &&& r.x11.window_manager@ == window_manager_text(desktop, r.x11.is_active)
}

impl PlatformInfo {
    /// Collects the display server, Wayland and X11 details from the
    /// session's environment and whether the Wayland socket exists.
    pub fn collect(env: &SessionEnv, wayland_socket_exists: bool) -> (r: PlatformInfo)
        ensures
            platform_fits(r, *env, wayland_socket_exists),
    {
        PlatformInfo {
            display_server: DisplayServer::detect(env),
            wayland: WaylandDiagnostics::collect(env, wayland_socket_exists),
            x11: X11Diagnostics::collect(env),
        }
    }
}

} // verus!
