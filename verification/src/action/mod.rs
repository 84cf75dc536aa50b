pub mod helper;
