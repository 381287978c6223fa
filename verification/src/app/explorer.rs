use crate::app::ScrollAmount;
use crate::explorer::state::{ExplorerState, ExplorerView};
use vstd::prelude::*;

verus! {

/// A message to the explorer pane.
#[derive(Debug, Clone, Copy, PartialEq, Eq, Structural)]
pub enum Message {
    Up,
    Down,
    Open,
    Sort,
    Toggle,
    SwitchPane,
    SwitchPaneNext,
    SwitchPanePrevious,
    ScrollUp(ScrollAmount),
    ScrollDown(ScrollAmount),
}

/// What the explorer stands for after a message: the cursor moves one row,
/// the sort direction turns, the row under the cursor is acted on, the pane
/// opens or closes, or the pane becomes active if it was not and the other way
/// round. The scroll messages leave the state as it is: how far they move
/// depends on the screen.
pub open spec fn after(message: Message, view: ExplorerView) -> ExplorerView {
    match message {
        Message::Up => view.moved_up(1),
        Message::Down => view.moved_down(1),
        Message::Sort => view.turned(),
        Message::Open => view.selected(),
        Message::Toggle => ExplorerView { open: !view.open, ..view },
        Message::SwitchPane | Message::SwitchPaneNext | Message::SwitchPanePrevious => ExplorerView {
            active: !view.active,
            ..view
        },
        _ => view,
    }
}

/// The explorer after a message.
pub fn update(message: Message, state: ExplorerState) -> (res: ExplorerState)
    ensures
        res@ == after(message, state@),
{
    match message {
        Message::Up => state.previous(1),
        Message::Down => state.next(1),
        Message::Sort => state.sort(),
        Message::Open => state.select(),
        Message::Toggle => state.toggle(),
        Message::SwitchPane | Message::SwitchPaneNext | Message::SwitchPanePrevious => {
            if state.active {
                state.set_active(false)
            } else {
                state.set_active(true)
            }
        },
        _ => state,
    }
}

} // verus!
