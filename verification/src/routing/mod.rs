pub mod route;
pub mod router;
