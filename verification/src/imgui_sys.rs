//! What a user interface instance remembers of its popup menu.

use vstd::prelude::*;

verus! {

/// The popup state of one user interface instance: whether a popup is asked
/// for, and whether one has been shown since the state was last reset.
pub struct Imgui {
    show_popup: bool,
    showed_popup: bool,
}

/// What an [`Imgui`] stands for in contracts.
pub struct ImguiView {
    pub show_popup: bool,
    pub showed_popup: bool,
}

impl View for Imgui {
    type V = ImguiView;

    closed spec fn view(&self) -> ImguiView {
        ImguiView { show_popup: self.show_popup, showed_popup: self.showed_popup }
    }
}

impl Imgui {
    /// No popup is asked for and none was shown.
    pub fn new() -> (state: Imgui)
        ensures
            state@ == (ImguiView { show_popup: false, showed_popup: false }),
    {
        Imgui { show_popup: false, showed_popup: false }
    }

    /// Called when the instance is about to draw its popup: whether the popup
    /// is to be opened now. If so, the state notes that a popup was shown.
    pub fn begin_popup_context(&mut self) -> (open: bool)
        ensures
            open == old(self)@.show_popup,
            final(self)@.show_popup == old(self)@.show_popup,
            final(self)@.showed_popup == (old(self)@.showed_popup || old(self)@.show_popup),
    {
        if self.show_popup {
            self.showed_popup = true;
        }
        self.show_popup
    }

    /// 1 if a popup was shown since the state was last reset, else 0.
    pub fn has_showed_popup(&self) -> (shown: u32)
        ensures
            shown == (if self@.showed_popup {
                1u32
            } else {
                0u32
            }),
    {
        if self.showed_popup {
            1
        } else {
            0
        }
    }

    /// Says whether a popup is asked for from now on.
    pub fn mark_show_popup(&mut self, state: bool)
        ensures
            final(self)@ == (ImguiView { show_popup: state, ..old(self)@ }),
    {
        self.show_popup = state;
    }

    /// Resets what was shown, before the instance is used again.
    pub fn init_state(&mut self)
        ensures
            final(self)@ == (ImguiView { showed_popup: false, ..old(self)@ }),
    {
        self.showed_popup = false;
    }
}

} // verus!
