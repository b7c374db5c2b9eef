pub mod elements;
pub mod parser;
pub mod style;

pub use elements::code::CodeBlock;
pub use elements::header::Header;
pub use elements::link::Link;
pub use elements::list::ListItem;
pub use parser::MarkdownRenderer;
