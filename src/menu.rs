//! The tray menu and what its entries ask for.
use vstd::prelude::*;

use crate::text::same_text;
use crate::window::WindowSpec;

verus! {

pub const REQUEST_SUPPORT_ID: &'static str = "request_support";

pub const REQUEST_SUPPORT_LABEL: &'static str = "Request Support";

pub const QUIT_ID: &'static str = "quit";

pub const QUIT_LABEL: &'static str = "Quit";

/// The name of the window opened from the menu.
pub const SUPPORT_WINDOW: &'static str = "support";

/// The bundled page that the support window loads.
pub const SUPPORT_PAGE: &'static str = "support.html";

pub const SUPPORT_TITLE: &'static str = "Support Request";

pub const SUPPORT_WIDTH: u32 = 800;

pub const SUPPORT_HEIGHT: u32 = 600;

/// An entry of the tray menu: the identifier its selection reports, the
/// text it shows, and whether it can be selected.
#[derive(Debug)]
pub struct MenuItemSpec {
    pub id: String,
    pub label: String,
    pub enabled: bool,
}

/// What a menu entry asks for.
#[derive(Clone, Copy, Debug, PartialEq, Eq, Structural)]
pub enum MenuAction {
    RequestSupport,
    Quit,
}

/// The mouse button of a click on the tray icon.
#[derive(Clone, Copy, Debug, PartialEq, Eq, Structural)]
pub enum TrayButton {
    Left,
    Right,
    Middle,
}

pub open spec fn is_menu_item(item: MenuItemSpec, id: Seq<char>, label: Seq<char>) -> bool {
    &&& item.id@ == id
    &&& item.label@ == label
    &&& item.enabled
}

/// The action an identifier stands for; `None` for one that no entry has.
pub open spec fn menu_action_of(id: Seq<char>) -> Option<MenuAction> {
    if id == REQUEST_SUPPORT_ID@ {
        Some(MenuAction::RequestSupport)
    } else if id == QUIT_ID@ {
        Some(MenuAction::Quit)
    } else {
        None
    }
}

pub open spec fn is_support_spec(s: WindowSpec) -> bool {
    &&& s.label@ == SUPPORT_WINDOW@
    &&& s.url@ == SUPPORT_PAGE@
    &&& s.title@ == SUPPORT_TITLE@
    &&& s.width == SUPPORT_WIDTH
    &&& s.height == SUPPORT_HEIGHT
}

/// The tray menu, in the order shown: request support, then quit; both
/// always enabled.
pub fn tray_menu() -> (r: Vec<MenuItemSpec>)
    ensures
        r@.len() == 2,
        is_menu_item(r@[0], REQUEST_SUPPORT_ID@, REQUEST_SUPPORT_LABEL@),
        is_menu_item(r@[1], QUIT_ID@, QUIT_LABEL@),
{
    let mut r: Vec<MenuItemSpec> = Vec::new();
    r.push(
        MenuItemSpec {
            id: REQUEST_SUPPORT_ID.to_owned(),
            label: REQUEST_SUPPORT_LABEL.to_owned(),
            enabled: true,
        },
    );
    r.push(MenuItemSpec { id: QUIT_ID.to_owned(), label: QUIT_LABEL.to_owned(), enabled: true });
    r
}

/// Reads a menu identifier.
pub fn menu_action(id: &str) -> (r: Option<MenuAction>)
    ensures
        r == menu_action_of(id@),
{
    if same_text(id, REQUEST_SUPPORT_ID) {
        Some(MenuAction::RequestSupport)
    } else if same_text(id, QUIT_ID) {
        Some(MenuAction::Quit)
    } else {
        None
    }
}

/// The support window: the bundled support page, titled, at 800 by 600.
pub fn support_window_spec() -> (r: WindowSpec)
    ensures
        is_support_spec(r),
{
    WindowSpec {
        label: SUPPORT_WINDOW.to_owned(),
        url: SUPPORT_PAGE.to_owned(),
        title: SUPPORT_TITLE.to_owned(),
        width: SUPPORT_WIDTH,
        height: SUPPORT_HEIGHT,
    }
}

} // verus!
