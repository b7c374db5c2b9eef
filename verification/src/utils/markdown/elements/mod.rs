pub mod emphasis;
pub mod link;
