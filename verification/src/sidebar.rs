//! The navigation sidebar: its tabs, their captions, and the display
//! backend shown at its foot.
use vstd::prelude::*;

use crate::localization::{tr, tr_spec, Language};
use crate::text;

verus! {

/// The tabs of the main window, in sidebar order.
#[derive(Debug, Clone, Copy, PartialEq, Eq, Structural)]
pub enum Tab {
    Processes,
    Performance,
    Services,
    Startup,
    Connections,
    FileLocks,
    About,
}

/// Translation key of a tab's caption.
pub open spec fn tab_key(t: Tab) -> Seq<char> {
    match t {
        Tab::Processes => "tab_processes"@,
        Tab::Performance => "tab_performance"@,
        Tab::Services => "tab_services"@,
        Tab::Startup => "tab_startup"@,
        Tab::Connections => "tab_connections"@,
        Tab::FileLocks => "tab_file_locks"@,
        Tab::About => "tab_about"@,
    }
}

impl Tab {
    /// The caption of the tab in `lang`.
    pub fn label(&self, lang: Language) -> (r: &'static str)
        ensures
            r@ == tr_spec(tab_key(*self), lang),
    {
        match self {
            Tab::Processes => tr("tab_processes", lang),
            Tab::Performance => tr("tab_performance", lang),
            Tab::Services => tr("tab_services", lang),
            Tab::Startup => tr("tab_startup", lang),
            Tab::Connections => tr("tab_connections", lang),
            Tab::FileLocks => tr("tab_file_locks", lang),
            Tab::About => tr("tab_about", lang),
        }
    }

    /// The text of the tab's sidebar button in `lang` (its caption, which
    /// starts with the tab's symbol).
    pub fn icon(&self, lang: Language) -> (r: &'static str)
        ensures
            r@ == tr_spec(tab_key(*self), lang),
    {
        match self {
            Tab::Processes => tr("tab_processes", lang),
            Tab::Performance => tr("tab_performance", lang),
            Tab::Services => tr("tab_services", lang),
            Tab::Startup => tr("tab_startup", lang),
            Tab::Connections => tr("tab_connections", lang),
            Tab::FileLocks => tr("tab_file_locks", lang),
            Tab::About => tr("tab_about", lang),
        }
    }
}

/// The tabs in the order the sidebar lists them.
pub fn all_tabs() -> (r: Vec<Tab>)
    ensures
        r@ == seq![
            Tab::Processes,
            Tab::Performance,
            Tab::Services,
            Tab::Startup,
            Tab::Connections,
            Tab::FileLocks,
            Tab::About,
        ],
{
    vec![
        Tab::Processes,
        Tab::Performance,
        Tab::Services,
        Tab::Startup,
        Tab::Connections,
        Tab::FileLocks,
        Tab::About,
    ]
}

/// The display backend named at the foot of the sidebar, from the value of
/// `XDG_SESSION_TYPE` (`None` when unset): "Wayland 🌀" when it is `wayland`
/// in any case, "X11 🖥" otherwise.
pub fn display_backend_label(session_type: Option<&str>) -> (r: &'static str)
    ensures
        r@ == (if session_type matches Some(s) && text::lower_text(s@) == "wayland"@ {
            "Wayland 🌀"@
        } else {
            "X11 🖥"@
        }),
{
    match session_type {
        Some(s) => {
            let low = text::to_lower(s);
            backend_label_for_lowercase(low.as_str())
        },
        None => "X11 🖥",
    }
}

/// The display backend label for a session type given in lowercase.
pub fn backend_label_for_lowercase(lower: &str) -> (r: &'static str)
    ensures
        r@ == (if lower@ == "wayland"@ {
            "Wayland 🌀"@
        } else {
            "X11 🖥"@
        }),
{
    if text::chars_equal(&text::chars_of(lower), &text::chars_of("wayland")) {
        "Wayland 🌀"
    } else {
        "X11 🖥"
    }
}

} // verus!
