use vstd::prelude::*;

verus! {

/// Names one in-memory buffer slot.
pub type FrameId = i32;

/// Names one logical page.
pub type PageId = i32;

/// Number of pages the page file is sized for when it is created.
pub const DEFAULT_DB_IO_SIZE: u64 = 16;

/// Size in bytes of one page.
pub const BUSTUB_PAGE_SIZE: u64 = 4096;

} // verus!
