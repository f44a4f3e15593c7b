pub mod model;
pub mod text;
pub mod time;
pub mod policy;
pub mod lifecycle;
pub mod notification;
pub mod store;
pub mod secrets;
pub mod agent;
pub mod server;
pub mod spool;
