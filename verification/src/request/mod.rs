pub mod swap;
pub mod tokenname;
