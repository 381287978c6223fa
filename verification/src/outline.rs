pub mod item;
pub mod state;
pub mod view;

pub use item::{FindItem, Flatten, Item};
pub use state::OutlineState;
