//! What tasks exchange through the kernel, and what the file system keeps in
//! memory.
pub mod block_cache;
pub mod mail;
