//! The core of a terminal text editor: lines of grapheme clusters with their
//! display columns, a buffer of lines, a cursor that keeps to cluster edges,
//! a view that scrolls a viewport over the buffer, and the modal state machine
//! that turns key presses into edits and motions.
pub mod unicode;
pub mod text_fragment;
pub mod line;
pub mod position;
pub mod size;
pub mod file_info;
pub mod buffer;
pub mod cursor;
pub mod view;
pub mod mode;
pub mod command_bar;
pub mod status_bar;
pub mod editor;
