//! The state of the footer offered for detected subshell commands.
//!
//! The footer offers "Heddlify subshell", "Use agent" and "Dismiss". While it is active,
//! the Heddlify button shows the keybinding of the subshell action; clearing it removes
//! the keybinding. Every button click clears the footer, and the Heddlify click only
//! reports an event when the footer was actually offering heddlification.

use vstd::prelude::*;

verus! {

/// The action that the footer's "Heddlify subshell" button shows the keybinding of.
pub const HEDDLIFY_SUBSHELL_ACTION: &'static str = "terminal:heddlify_subshell";

/// A click on one of the footer's buttons.
#[derive(Debug, Clone, Copy, PartialEq, Eq, Structural)]
pub enum HeddlifyFooterViewAction {
    Heddlify,
    UseAgent,
    Dismiss,
}

/// What the footer reports to its parent view.
#[derive(Debug, Clone, Copy, PartialEq, Eq, Structural)]
pub enum HeddlifyFooterViewEvent {
    Heddlify,
    UseAgent,
    Dismiss,
}

/// The footer's state: whether it is offering subshell heddlification, and the action
/// whose keybinding the Heddlify button currently shows.
pub struct HeddlifyFooterView {
    is_active: bool,
    heddlify_button_binding: Option<&'static str>,
}

impl View for HeddlifyFooterView {
    type V = (bool, Option<Seq<char>>);

    closed spec fn view(&self) -> (bool, Option<Seq<char>>) {
        (
            self.is_active,
            match self.heddlify_button_binding {
                Some(b) => Some(b@),
                None => None,
            },
        )
    }
}

/// The footer's invariant: the Heddlify button shows the subshell action's keybinding
/// exactly while the footer is active.
pub open spec fn footer_wf(v: (bool, Option<Seq<char>>)) -> bool {
    if v.0 {
        v.1 == Some(HEDDLIFY_SUBSHELL_ACTION@)
    } else {
        v.1 is None
    }
}

/// The event a click reports, given whether the footer was active.
pub open spec fn footer_event(was_active: bool, action: HeddlifyFooterViewAction) -> Option<
    HeddlifyFooterViewEvent,
> {
    match action {
        HeddlifyFooterViewAction::Heddlify => if was_active {
            Some(HeddlifyFooterViewEvent::Heddlify)
        } else {
            None
        },
        HeddlifyFooterViewAction::UseAgent => Some(HeddlifyFooterViewEvent::UseAgent),
        HeddlifyFooterViewAction::Dismiss => Some(HeddlifyFooterViewEvent::Dismiss),
    }
}

impl HeddlifyFooterView {
    /// A footer that is not offering anything yet.
    pub fn new() -> (r: Self)
        ensures
            r@ == (false, None::<Seq<char>>),
            footer_wf(r@),
    {
        HeddlifyFooterView { is_active: false, heddlify_button_binding: None }
    }

    /// Activates the footer so it offers subshell heddlification.
    pub fn show(&mut self)
        ensures
            final(self)@ == (true, Some(HEDDLIFY_SUBSHELL_ACTION@)),
            footer_wf(final(self)@),
    {
        self.heddlify_button_binding = Some(HEDDLIFY_SUBSHELL_ACTION);
        self.is_active = true;
    }

    /// Returns whether the footer is currently offering subshell heddlification.
    pub fn is_active(&self) -> (r: bool)
        ensures
            r == self@.0,
    {
        self.is_active
    }

    /// The action whose keybinding the Heddlify button shows, if any.
    pub fn heddlify_button_binding(&self) -> (r: Option<&'static str>)
        ensures
            match r {
                Some(b) => self@.1 == Some(b@),
                None => self@.1 is None,
            },
    {
        self.heddlify_button_binding
    }

    /// Deactivates the footer.
    pub fn clear(&mut self)
        ensures
            final(self)@ == (false, None::<Seq<char>>),
            footer_wf(final(self)@),
    {
        self.is_active = false;
        self.heddlify_button_binding = None;
    }

    /// Handles a click. A click that reports an event leaves the footer cleared; the
    /// Heddlify click reports one only when the footer was active, and otherwise changes
    /// nothing.
    pub fn handle_action(&mut self, action: HeddlifyFooterViewAction) -> (r: Option<
        HeddlifyFooterViewEvent,
    >)
        ensures
            r == footer_event(old(self)@.0, action),
            r is Some ==> final(self)@ == (false, None::<Seq<char>>),
            r is None ==> final(self)@ == old(self)@,
    {
        match action {
            HeddlifyFooterViewAction::Heddlify => {
                if self.is_active {
                    self.clear();
                    Some(HeddlifyFooterViewEvent::Heddlify)
                } else {
                    None
                }
            },
            HeddlifyFooterViewAction::UseAgent => {
                self.clear();
                Some(HeddlifyFooterViewEvent::UseAgent)
            },
            HeddlifyFooterViewAction::Dismiss => {
                self.clear();
                Some(HeddlifyFooterViewEvent::Dismiss)
            },
        }
    }
}

} // verus!
