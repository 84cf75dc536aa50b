pub mod error;
pub mod request;
