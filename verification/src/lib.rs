//! Batch front-end logic for an external image-upscaling command-line tool.
//!
//! The library plans one subprocess invocation per selected input file
//! (deriving each output path from a user-editable filename template) and
//! supervises the running batch: a caller spawns the planned processes,
//! polls them on a timer, and feeds the observed statuses back in; the
//! library decides which handles stay, whether the batch has failed, and
//! when polling may stop.
//!
//! Paths, templates and other user-entered text are carried as UTF-8 bytes
//! (`Vec<u8>`), so that the substitution and path arithmetic can be stated
//! and proved byte by byte.

pub mod digits;
pub mod launch;
pub mod pathname;
pub mod settings;
pub mod supervise;
pub mod template;
pub mod text;
