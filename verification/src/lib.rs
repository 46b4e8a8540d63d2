//! A verified core for a small terminal text editor: character and string
//! handling, the line buffer with its cut/copy/paste machinery, the prompt
//! histories, the key-binding tables, the help text, the file browser list,
//! the ring of open buffers, the interface and syntax colours, and the
//! decisions of the write-out, insert and execute dialogues.
pub mod bytes;
pub mod definitions;
pub mod buffer;
pub mod cut;
pub mod files;
pub mod history;
pub mod chars;
pub mod strfind;
pub mod global;
pub mod help;
pub mod browser;
pub mod color;
pub mod syntax;
pub mod dialogs;
