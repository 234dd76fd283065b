//! The plain messages exchanged between the application and its system-tray
//! integration, and the event flags the tray raises for the main loop.
//!
//! The tray connection itself (session bus, notifier registration) is outside
//! work performed by the embedding application; only the data crosses here.

use vstd::prelude::*;

verus! {

/// A message from the tray to the application.
pub enum TrayToAppMsg {
    ShowCtxMenu { x: i32, y: i32 },
    Activate,
}

/// A message from the application to the tray.
pub enum AppToTrayMsg {
    UpdateHoverText(String),
}

/// What the tray asked for since the last tick.
#[derive(Clone, Copy, Debug)]
pub struct EventFlags {
    pub activated: bool,
    pub quit_clicked: bool,
    pub ctx_menu: Option<(i32, i32)>,
}

impl Default for EventFlags {
    /// Nothing requested.
    fn default() -> (r: Self)
        ensures
            !r.activated && !r.quit_clicked && r.ctx_menu is None,
    {
        EventFlags { activated: false, quit_clicked: false, ctx_menu: None }
    }
}

impl EventFlags {
    /// Hand the accumulated flags out and clear them, so each request is
    /// acted on once.
    pub fn take(&mut self) -> (r: Self)
        ensures
            r == *old(self),
            !final(self).activated && !final(self).quit_clicked && final(self).ctx_menu is None,
    {
        let r = *self;
        self.activated = false;
        self.quit_clicked = false;
        self.ctx_menu = None;
        r
    }
}

} // verus!
