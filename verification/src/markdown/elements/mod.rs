pub mod code;
pub mod header;
pub mod link;
pub mod list;
