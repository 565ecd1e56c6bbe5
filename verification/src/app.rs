//! The parent application's state.
//!
//! The parent shell composes the Add Hardware dialog; its own state is a
//! visibility flag and the dialog's state, and its `update` delegates
//! dialog messages to the dialog's own rules.

use vstd::prelude::*;
use crate::addhardware::{AddHardwareApp, Message as AddHwMsg, Page, UiAction, update_rel};

verus! {

/// Messages of the parent shell.
pub enum Message {
    ShowAddHardware,
    CloseAddHardware,
    AddHardware(AddHwMsg),
}

/// The parent application's state.
pub struct MainApp {
    pub show_add_hw: bool,
    pub add_hw: AddHardwareApp,
}

impl MainApp {
    /// The initial state: the dialog exists but is not shown.
    pub fn new() -> (r: Self)
        ensures
            !r.show_add_hw,
            r.add_hw.current == Page::Storage,
            r.add_hw.gfx_type@ == "spice"@,
    {
        MainApp { show_add_hw: false, add_hw: AddHardwareApp::new() }
    }

    /// Applies one message; dialog messages follow the dialog's own
    /// update relation.
    pub fn update(&mut self, msg: Message) -> (r: UiAction)
        ensures
            match msg {
                Message::ShowAddHardware => final(self).show_add_hw && final(self).add_hw == old(
                    self,
                ).add_hw && r is Idle,
                Message::CloseAddHardware => !final(self).show_add_hw && final(self).add_hw == old(
                    self,
                ).add_hw && r is Idle,
                Message::AddHardware(inner) => final(self).show_add_hw == old(self).show_add_hw
                    && update_rel(old(self).add_hw, final(self).add_hw, inner, r),
            },
    {
        match msg {
            Message::ShowAddHardware => {
                self.show_add_hw = true;
                UiAction::Idle
            },
            Message::CloseAddHardware => {
                self.show_add_hw = false;
                UiAction::Idle
            },
            Message::AddHardware(inner) => self.add_hw.update(inner),
        }
    }
}

} // verus!
