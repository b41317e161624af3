//! Core of a minimal screen-oriented terminal text editor.
//!
//! The library holds the pure logic of the editor: decoding key escape
//! sequences into logical commands, the row model with tab expansion, the
//! cursor and viewport arithmetic, composing a full terminal frame as one
//! byte buffer, and parsing the terminal's cursor-position report. All
//! terminal I/O (raw mode, reads, writes) lives outside the library and
//! hands it plain bytes.

pub mod editor;
pub mod keys;
pub mod render;
pub mod report;
pub mod row;
