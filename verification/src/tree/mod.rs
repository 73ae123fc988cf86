//! Directory records: the decoded form and the decoder.

pub mod parser;
pub mod tree;

pub use parser::parse;
pub use tree::{BlobKey, BlobKeyModel, Node, NodeModel, StorageType, Tree, TreeModel};
