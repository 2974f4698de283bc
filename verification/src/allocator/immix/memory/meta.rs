pub use crate::memory::bump::{BlockMeta, Hole};
