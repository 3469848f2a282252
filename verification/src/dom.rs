//! A simplified document: the fixed document-type declaration followed by
//! the default `html` skeleton, rendered as one line of markup.

use vstd::prelude::*;
use vstd::string::StringExecFns;
use crate::node::Node;
use crate::node::NodeModel;
use crate::node::spec_doctype;
use crate::node::spec_default_html;
use crate::node::spec_render_node;

verus! {

/// A simplified document: a document-type declaration and an `html` tree.
pub struct DOM {
    doctype: Node,
    html: Node,
}

/// Mathematical model of a document: the models of its two trees.
#[verifier::ext_equal]
pub struct DomModel {
    pub doctype: NodeModel,
    pub html: NodeModel,
}

impl View for DOM {
    type V = DomModel;

    closed spec fn view(&self) -> DomModel {
        DomModel { doctype: self.doctype@, html: self.html@ }
    }
}

impl DOM {
    /// The default document with the given title: the fixed doctype followed
    /// by the default `html` skeleton carrying `title` in its `title` tag.
    pub fn from_title(title: &str) -> (r: DOM)
        ensures
            r@ == (DomModel { doctype: spec_doctype(), html: spec_default_html(title@) }),
    {
        let doctype = Node::default_doctype();
        let html = Node::default_html(title);
        DOM { doctype, html }
    }

    /// Serialize the document: the doctype's markup followed by the `html`
    /// tree's markup, with nothing in between.
    pub fn render(&self) -> (r: String)
        ensures
            r@ == spec_render_node(self@.doctype) + spec_render_node(self@.html),
    {
        let d = self.doctype.render();
        d.concat(self.html.render().as_str())
    }
}

impl Default for DOM {
    /// The default document carries the title `Document`.
    fn default() -> (r: DOM)
        ensures
            r@ == (DomModel { doctype: spec_doctype(), html: spec_default_html("Document"@) }),
    {
        DOM::from_title("Document")
    }
}

} // verus!
