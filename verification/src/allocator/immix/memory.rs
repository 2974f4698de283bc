pub mod block;
pub mod blocklist;
pub mod bump;
pub mod meta;
