//! Page-storage core of a single-node database engine: an LRU-K frame
//! replacer, the bookkeeping of a page file (offset allocation, free-slot
//! reuse, file growth, read outcomes) and the request queue of a single
//! disk worker.
pub mod config;
pub mod disk_manager;
pub mod disk_scheduler;
pub mod lru_k_replacer;
