//! The commands that the page component takes and gives.

use crate::components::page::Renderer;
use vstd::prelude::*;

verus! {

/// A command for the page component.
#[derive(Clone, Debug, PartialEq, Eq)]
pub enum PageAction {
    SwitchRenderer(Renderer),
    ToggleContents,
    SelectFirstLink,
    SelectLastLink,
    SelectTopLink,
    SelectBottomLink,
    SelectPrevLink,
    SelectNextLink,
    GoToHeader(String),
}

/// A command.
#[derive(Clone, Debug, PartialEq, Eq)]
pub enum Action {
    Page(PageAction),
    ScrollUp(u16),
    ScrollDown(u16),
    ScrollHalfUp,
    ScrollHalfDown,
    ScrollToTop,
    ScrollToBottom,
    Resize(u16, u16),
    /// Load the page with this identifier.
    LoadPage(String),
}

/// What became of an event or a command: it was not for this component, or it
/// was handled, with the command that follows from it, if any.
#[derive(Clone, Debug, PartialEq, Eq)]
pub enum ActionResult {
    Ignored,
    Consumed(Option<Action>),
}

/// A command for the page component as a mathematical value.
pub enum PageActionView {
    SwitchRenderer(Renderer),
    ToggleContents,
    SelectFirstLink,
    SelectLastLink,
    SelectTopLink,
    SelectBottomLink,
    SelectPrevLink,
    SelectNextLink,
    GoToHeader(Seq<char>),
}

/// A command as a mathematical value.
pub enum ActionView {
    Page(PageActionView),
    ScrollUp(u16),
    ScrollDown(u16),
    ScrollHalfUp,
    ScrollHalfDown,
    ScrollToTop,
    ScrollToBottom,
    Resize(u16, u16),
    LoadPage(Seq<char>),
}

/// What became of an event or a command, as a mathematical value.
pub enum ActionResultView {
    Ignored,
    Consumed(Option<ActionView>),
}

impl View for PageAction {
    type V = PageActionView;

    open spec fn view(&self) -> PageActionView {
        match self {
            PageAction::SwitchRenderer(r) => PageActionView::SwitchRenderer(*r),
            PageAction::ToggleContents => PageActionView::ToggleContents,
            PageAction::SelectFirstLink => PageActionView::SelectFirstLink,
            PageAction::SelectLastLink => PageActionView::SelectLastLink,
            PageAction::SelectTopLink => PageActionView::SelectTopLink,
            PageAction::SelectBottomLink => PageActionView::SelectBottomLink,
            PageAction::SelectPrevLink => PageActionView::SelectPrevLink,
            PageAction::SelectNextLink => PageActionView::SelectNextLink,
            PageAction::GoToHeader(anchor) => PageActionView::GoToHeader(anchor@),
        }
    }
}

impl View for Action {
    type V = ActionView;

    open spec fn view(&self) -> ActionView {
        match self {
            Action::Page(action) => ActionView::Page(action@),
            Action::ScrollUp(n) => ActionView::ScrollUp(*n),
            Action::ScrollDown(n) => ActionView::ScrollDown(*n),
            Action::ScrollHalfUp => ActionView::ScrollHalfUp,
            Action::ScrollHalfDown => ActionView::ScrollHalfDown,
            Action::ScrollToTop => ActionView::ScrollToTop,
            Action::ScrollToBottom => ActionView::ScrollToBottom,
            Action::Resize(w, h) => ActionView::Resize(*w, *h),
            Action::LoadPage(page) => ActionView::LoadPage(page@),
        }
    }
}

impl View for ActionResult {
    type V = ActionResultView;

    open spec fn view(&self) -> ActionResultView {
        match self {
            ActionResult::Ignored => ActionResultView::Ignored,
            ActionResult::Consumed(Some(action)) => ActionResultView::Consumed(Some(action@)),
            ActionResult::Consumed(None) => ActionResultView::Consumed(None),
        }
    }
}

impl ActionResult {
    /// Handled, with no command to follow.
    pub fn consumed() -> (r: ActionResult)
        ensures
            r == ActionResult::Consumed(None),
            r@ == ActionResultView::Consumed(None),
    {
        ActionResult::Consumed(None)
    }

    /// Handled, with `action` to follow.
    pub fn from_action(action: Action) -> (r: ActionResult)
        ensures
            r == ActionResult::Consumed(Some(action)),
            r@ == ActionResultView::Consumed(Some(action@)),
    {
        ActionResult::Consumed(Some(action))
    }
}

} // verus!
