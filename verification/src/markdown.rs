pub mod event;
pub mod laws;
pub mod node;
pub mod parser;
pub mod view;

pub use event::{Element, ElementEnd, Token};
pub use node::{
    BlockQuoteKind, HeadingLevel, ItemKind, ListKind, MarkdownNode, Node, Style, TaskListItemKind,
    Text, TextNode,
};
pub use parser::{from_str, matches_tag_end, Parser};
