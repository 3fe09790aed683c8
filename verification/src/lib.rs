pub mod address;
pub mod text;
pub mod types;
pub mod filter;
pub mod records;
pub mod merge;
