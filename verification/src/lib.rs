//! Core of a modal terminal text editor: the line buffer with its mutation
//! algorithms, the cursor/viewport scroll-offset computation, and the modal
//! input state machine. Terminal rendering and file I/O live outside this
//! library and only read or hand over plain values.

pub mod buffer;
pub mod editor;
pub mod text;

pub use buffer::Buffer;
pub use editor::Action;
pub use editor::Editor;
pub use editor::Key;
pub use editor::Mode;
