pub mod buckets;
pub mod json;
pub mod meta;
pub mod objects;
pub mod rpc;
