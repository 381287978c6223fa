pub mod editor;
pub mod state;
pub mod text_buffer;

pub use state::{BufferAction, EditorState, Mode};
pub use text_buffer::CursorMove;
