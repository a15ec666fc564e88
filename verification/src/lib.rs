pub mod errors;
pub mod registry;
pub mod dispatch;
pub mod create;
pub mod handle;
