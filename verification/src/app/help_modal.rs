use crate::app::ScrollAmount;
use crate::help_modal::{HelpModalState, HelpModalView};
use vstd::prelude::*;

verus! {

/// A message to the help modal.
#[derive(Debug, Clone, Copy, PartialEq, Eq, Structural)]
pub enum Message {
    Toggle,
    Close,
    ScrollUp(ScrollAmount),
    ScrollDown(ScrollAmount),
}

/// The help modal after a message: it is shown or hidden. The scroll messages
/// leave the state as it is: how far they move depends on the screen.
pub fn update(message: Message, state: HelpModalState) -> (res: HelpModalState)
    ensures
        res@ == match message {
            Message::Toggle => HelpModalView { visible: !state.visible, ..state@ },
            Message::Close => HelpModalView { visible: false, ..state@ },
            _ => state@,
        },
{
    match message {
        Message::Toggle => state.toggle_visibility(),
        Message::Close => state.close(),
        _ => state,
    }
}

} // verus!
