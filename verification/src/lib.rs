pub mod config;
pub mod control;
pub mod registry;
pub mod route;
pub mod strutil;

pub use config::Config;
pub use control::CreateRequest;
pub use registry::{AppState, RemoveRequest};
pub use route::ForwardingRoute;
pub use strutil::dry_run_batch;
