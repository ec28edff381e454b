pub mod errors;
pub mod models;
pub mod json;
pub mod device;
pub mod store;
pub mod propagate;
pub mod orchestrate;
