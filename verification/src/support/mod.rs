pub mod assoc;
pub mod logger;
pub mod pattern;
pub mod text;
