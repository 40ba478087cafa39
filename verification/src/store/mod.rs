pub mod memory;
pub mod redis_keys;
