//! A declarative builder and serializer for a small markup-document tree.
//!
//! Documents are assembled out of typed values: attributes (bare flags and
//! key/value pairs), nodes (elements, text leaves, comment leaves), and a
//! grouping grammar that classifies a flat sequence of builder items into an
//! element's ordered attribute and child lists. A renderer serializes the
//! tree back into markup text with exact, deterministic formatting.

pub mod attribute;
pub mod builder;
pub mod custom;
pub mod dom;
pub mod node;

pub use attribute::Attribute;
pub use attribute::AttrModel;
pub use builder::BuildError;
pub use builder::BuilderItem;
pub use dom::DOM;
pub use dom::DomModel;
pub use node::Node;
pub use node::NodeModel;
