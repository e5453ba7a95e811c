//! The decisions behind a desktop selection monitor.
//!
//! The monitor watches the left mouse button. When the button was held long
//! enough to have dragged out a selection, it reads the selected text through
//! the accessibility interface, or, where that yields nothing, by copying the
//! selection through the clipboard and putting the clipboard back. A second
//! tool captures an area of the screen and recognises the text in it.
//!
//! Everything that touches the desktop is a call that this crate asks for and
//! somebody else performs: each procedure is a state machine, a function from a
//! state and the reply to the outstanding call to the next state and the next
//! call. The contracts state each transition exactly, and the laws state what
//! whole runs of the machines do.

pub mod bitmap;
pub mod clipboard_text;
pub mod copy;
pub mod detection;
pub mod keys;
pub mod machine;
pub mod mouse;
pub mod number;
pub mod ocr;
pub mod screen;
pub mod selection;
pub mod session;
pub mod snapshot;
pub mod text;
pub mod utf16;
pub mod worker;
