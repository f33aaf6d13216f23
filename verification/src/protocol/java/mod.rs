pub mod v1_7;
pub mod v1_8;
pub mod v1_9;
