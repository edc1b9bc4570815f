pub mod error;
pub mod laws;
pub mod node;
pub mod options;
pub mod places;
pub mod store;
pub mod traverse;
pub mod types;

pub use node::{Node, NodeModel, NodeRef, NodeType, NodeValue, SourceLocation, ValueModel};
pub use options::CodegenOptions;
pub use store::{IRModel, IR};
