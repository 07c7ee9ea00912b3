pub mod error;
pub mod paged_sparse_set;
pub mod entity;
pub mod pool;
