//! Control-box daemon core: the mailbox bus between a tablet and an air
//! conditioning control box.
pub mod crc;
pub mod daemon;
pub mod engine;
pub mod frame;
pub mod frame_laws;
pub mod link;
pub mod mailbox;
pub mod registers;
pub mod text;
pub mod text_laws;
pub mod view_laws;
