pub mod swap;
