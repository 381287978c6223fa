pub mod item;
pub mod state;
pub mod view;

pub use item::Item;
pub use state::{flatten, ExplorerState, Sort};
