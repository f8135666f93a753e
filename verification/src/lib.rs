//! A fixed-size worker pool with a verified dispatch queue and lifecycle,
//! together with the logging facility and the request handling that use it.

pub mod laws;
pub mod lifecycle;
pub mod log;
pub mod logger;
pub mod message;
pub mod model;
pub mod pool;
pub mod report;
pub mod request;
pub mod response;
pub mod text;
pub mod worker;

pub use pool::ThreadPool;
pub use worker::Worker;
