//! Nodes of the document tree: elements (name, ordered attributes, ordered
//! children), text leaves and comment leaves, together with the depth-first
//! renderer that serializes a tree into markup text.

use vstd::prelude::*;
use vstd::string::StringExecFns;
use crate::attribute::Attribute;
use crate::attribute::AttrModel;
use crate::attribute::attrs_model;
use crate::attribute::spec_render_attr;

verus! {

/// A node of the document tree has three variants.
/// - `Element`: a name, the attributes in the order the renderer must emit
///   them, and the child nodes in the order they must appear.
/// - `Text`: a text leaf, emitted verbatim.
/// - `Comment`: a comment leaf.
#[derive(PartialEq, Eq, Debug)]
pub enum Node {
    Element { node_name: String, attributes: Vec<Attribute>, child_nodes: Vec<Node> },
    Text { node_value: String },
    Comment { node_value: String },
}

/// Mathematical model of a node: its strings as character sequences and its
/// lists as sequences, recursively.
#[verifier::ext_equal]
pub enum NodeModel {
    Element { name: Seq<char>, attrs: Seq<AttrModel>, children: Seq<NodeModel> },
    Text { value: Seq<char> },
    Comment { value: Seq<char> },
}

/// The model of a node.
pub open spec fn node_model(n: Node) -> NodeModel
    decreases n,
{
    match n {
        Node::Element { node_name, attributes, child_nodes } => NodeModel::Element {
            name: node_name@,
            attrs: attrs_model(attributes@),
            children: children_model(child_nodes@),
        },
        Node::Text { node_value } => NodeModel::Text { value: node_value@ },
        Node::Comment { node_value } => NodeModel::Comment { value: node_value@ },
    }
}

/// The model of a sequence of nodes, elementwise.
pub open spec fn children_model(s: Seq<Node>) -> Seq<NodeModel>
    decreases s,
{
    if s.len() == 0 {
        Seq::empty()
    } else {
        seq![node_model(s[0])] + children_model(s.drop_first())
    }
}

impl View for Node {
    type V = NodeModel;

    open spec fn view(&self) -> NodeModel {
        node_model(*self)
    }
}

/// `children_model` maps `node_model` over the sequence: it keeps the length
/// and models each node in place.
pub proof fn lemma_children_model(s: Seq<Node>)
    ensures
        children_model(s).len() == s.len(),
        forall|i: int| 0 <= i < s.len() ==> children_model(s)[i] == node_model(s[i]),
    decreases s.len(),
{
    if s.len() > 0 {
        lemma_children_model(s.drop_first());
    }
}

/// Modelling commutes with appending one node.
pub proof fn lemma_children_model_push(s: Seq<Node>, n: Node)
    ensures
        children_model(s.push(n)) == children_model(s).push(node_model(n)),
{
    lemma_children_model(s);
    lemma_children_model(s.push(n));
    assert(children_model(s.push(n)) =~= children_model(s).push(node_model(n)));
}

/// Modelling commutes with concatenation of node lists.
pub proof fn lemma_children_model_concat(s: Seq<Node>, t: Seq<Node>)
    ensures
        children_model(s + t) == children_model(s) + children_model(t),
{
    lemma_children_model(s);
    lemma_children_model(t);
    lemma_children_model(s + t);
    assert(children_model(s + t) =~= children_model(s) + children_model(t));
}

/// The attributes of an opening tag render left to right in stored order,
/// each preceded by a single space.
pub open spec fn spec_render_attrs(attrs: Seq<AttrModel>) -> Seq<char>
    decreases attrs.len(),
{
    if attrs.len() == 0 {
        Seq::empty()
    } else {
        " "@ + spec_render_attr(attrs[0]) + spec_render_attrs(attrs.drop_first())
    }
}

/// A node renders depth-first: the opening tag first, then the children in
/// stored order, then the closing tag. An element with no children emits no
/// closing tag; a text leaf is emitted verbatim; a comment leaf is wrapped
/// in `<!--` and `-->`.
pub open spec fn spec_render_node(n: NodeModel) -> Seq<char>
    decreases n,
{
    match n {
        NodeModel::Comment { value } => "<!--"@ + value + "-->"@,
        NodeModel::Text { value } => value,
        NodeModel::Element { name, attrs, children } => {
            if children.len() == 0 {
                "<"@ + name + spec_render_attrs(attrs) + ">"@
            } else {
                "<"@ + name + spec_render_attrs(attrs) + ">"@ + spec_render_children(children)
                    + "</"@ + name + ">"@
            }
        },
    }
}

/// Children render left to right in stored order, with nothing in between.
pub open spec fn spec_render_children(children: Seq<NodeModel>) -> Seq<char>
    decreases children,
{
    if children.len() == 0 {
        Seq::empty()
    } else {
        spec_render_node(children[0]) + spec_render_children(children.drop_first())
    }
}

/// An element with no children renders as its opening tag alone: no closing
/// tag is ever emitted for it, whatever its name and attributes.
pub proof fn lemma_empty_element_render(name: Seq<char>, attrs: Seq<AttrModel>)
    ensures
        spec_render_node(NodeModel::Element { name, attrs, children: Seq::empty() }) == "<"@
            + name + spec_render_attrs(attrs) + ">"@,
{
}

/// A comment renders as its content wrapped in `<!--` and `-->`, whatever
/// the content.
pub proof fn lemma_comment_render(value: Seq<char>)
    ensures
        spec_render_node(NodeModel::Comment { value }) == "<!--"@ + value + "-->"@,
{
}

/// A text leaf renders as its content, verbatim, whatever the content.
pub proof fn lemma_text_render(value: Seq<char>)
    ensures
        spec_render_node(NodeModel::Text { value }) == value,
{
}

/// The fixed document-type declaration: an element named `!DOCTYPE` carrying
/// exactly one flag attribute named `html` and no children.
pub open spec fn spec_doctype() -> NodeModel {
    NodeModel::Element {
        name: "!DOCTYPE"@,
        attrs: seq![AttrModel::Boolean { name: "html"@ }],
        children: Seq::empty(),
    }
}

/// The fixed default-document skeleton: an `html` element with a `charset`
/// attribute, containing a `head` (three fixed `meta` tags and a `title`
/// carrying the given text) and a `body` with an empty text child.
pub open spec fn spec_default_html(title: Seq<char>) -> NodeModel {
    NodeModel::Element {
        name: "html"@,
        attrs: seq![AttrModel::Normal { key: "charset"@, value: "UTF-8"@ }],
        children: seq![
            NodeModel::Element {
                name: "head"@,
                attrs: Seq::empty(),
                children: seq![
                    NodeModel::Element {
                        name: "meta"@,
                        attrs: seq![AttrModel::Normal { key: "charset"@, value: "UTF-8"@ }],
                        children: Seq::empty(),
                    },
                    NodeModel::Element {
                        name: "meta"@,
                        attrs: seq![
                            AttrModel::Normal { key: "http-equiv"@, value: "X-UA-Compatible"@ },
                            AttrModel::Normal { key: "content"@, value: "IE=edge"@ },
                        ],
                        children: Seq::empty(),
                    },
                    NodeModel::Element {
                        name: "meta"@,
                        attrs: seq![
                            AttrModel::Normal { key: "name"@, value: "viewport"@ },
                            AttrModel::Normal {
                                key: "content"@,
                                value: "width=device-width, initial-scale=1.0"@,
                            },
                        ],
                        children: Seq::empty(),
                    },
                    NodeModel::Element {
                        name: "title"@,
                        attrs: Seq::empty(),
                        children: seq![NodeModel::Text { value: title }],
                    },
                ],
            },
            NodeModel::Element {
                name: "body"@,
                attrs: Seq::empty(),
                children: seq![NodeModel::Text { value: ""@ }],
            },
        ],
    }
}

/// Renders the attribute list suffix that starts at index `i`.
fn render_attrs_from(attributes: &Vec<Attribute>, i: usize) -> (r: String)
    requires
        i <= attributes@.len(),
    ensures
        r@ == spec_render_attrs(attrs_model(attributes@).skip(i as int)),
    decreases attributes@.len() - i,
{
    if i == attributes.len() {
        proof {
            assert(attrs_model(attributes@).skip(i as int) =~= Seq::<AttrModel>::empty());
        }
        String::new()
    } else {
        let mut r = String::from_str(" ");
        let a = attributes[i].render();
        r.append(a.as_str());
        let rest = render_attrs_from(attributes, i + 1);
        let out = r.concat(rest.as_str());
        proof {
            let m = attrs_model(attributes@);
            assert(m.skip(i as int).len() > 0);
            assert(m.skip(i as int)[0] == attributes@[i as int]@);
            assert(m.skip(i as int).drop_first() =~= m.skip(i + 1));
            assert(out@ =~= spec_render_attrs(m.skip(i as int)));
        }
        out
    }
}

/// Renders the child list suffix that starts at index `i`, one child after
/// the next.
fn render_children_from(child_nodes: &Vec<Node>, i: usize) -> (r: String)
    requires
        i <= child_nodes@.len(),
    ensures
        r@ == spec_render_children(children_model(child_nodes@).skip(i as int)),
    decreases child_nodes@, child_nodes@.len() - i,
{
    proof {
        lemma_children_model(child_nodes@);
    }
    if i == child_nodes.len() {
        proof {
            assert(children_model(child_nodes@).skip(i as int) =~= Seq::<NodeModel>::empty());
        }
        String::new()
    } else {
        let c = &child_nodes[i];
        proof {
            assert(decreases_to!(child_nodes@ => child_nodes@[i as int]));
        }
        let r = c.render();
        let rest = render_children_from(child_nodes, i + 1);
        let out = r.concat(rest.as_str());
        proof {
            let m = children_model(child_nodes@);
            assert(m.skip(i as int).len() > 0);
            assert(m.skip(i as int)[0] == node_model(child_nodes@[i as int]));
            assert(m.skip(i as int).drop_first() =~= m.skip(i + 1));
            assert(out@ =~= spec_render_children(m.skip(i as int)));
        }
        out
    }
}

impl Node {
    /// A text leaf carrying the given content.
    pub fn text(value: &str) -> (r: Node)
        ensures
            r@ == (NodeModel::Text { value: value@ }),
    {
        Node::Text { node_value: value.to_owned() }
    }

    /// A comment leaf carrying the given content.
    pub fn comment(value: &str) -> (r: Node)
        ensures
            r@ == (NodeModel::Comment { value: value@ }),
    {
        Node::Comment { node_value: value.to_owned() }
    }

    /// An element with the given name, attributes and children, stored in
    /// the order given.
    pub fn element_of(name: &str, attributes: Vec<Attribute>, child_nodes: Vec<Node>) -> (r:
        Node)
        ensures
            r@ == (NodeModel::Element {
                name: name@,
                attrs: attrs_model(attributes@),
                children: children_model(child_nodes@),
            }),
    {
        Node::Element { node_name: name.to_owned(), attributes, child_nodes }
    }

    /// The document-type declaration: `<!DOCTYPE html>` as a tree, an
    /// element named `!DOCTYPE` with the single flag attribute `html` and no
    /// children.
    pub fn default_doctype() -> (r: Node)
        ensures
            r@ == spec_doctype(),
    {
        proof {
            reveal_strlit("html");
        }
        let mut attributes: Vec<Attribute> = Vec::new();
        attributes.push(Attribute::flag("html".to_owned()));
        let ghost am = attrs_model(attributes@);
        let r = Node::element_of("!DOCTYPE", attributes, Vec::new());
        proof {
            assert(am =~= spec_doctype()->attrs);
            assert(children_model(Seq::<Node>::empty()) =~= Seq::<NodeModel>::empty());
            assert(r@ =~~= spec_doctype());
        }
        r
    }

    /// The default-document skeleton: an `html` element with a `charset`
    /// attribute, whose `head` carries the three fixed `meta` tags and a
    /// `title` with the given text, and whose `body` holds an empty text.
    pub fn default_html(title: &str) -> (r: Node)
        ensures
            r@ == spec_default_html(title@),
    {
        let ghost d = spec_default_html(title@);
        proof {
            reveal_strlit("charset");
            reveal_strlit("http-equiv");
            reveal_strlit("content");
            reveal_strlit("name");
            reveal_strlit("viewport");
            assert(children_model(Seq::<Node>::empty()) =~= Seq::<NodeModel>::empty());
        }
        let mut a1: Vec<Attribute> = Vec::new();
        a1.push(Attribute::key_value("charset".to_owned(), "UTF-8".to_owned()));
        let ghost am1 = attrs_model(a1@);
        let meta1 = Node::element_of("meta", a1, Vec::new());
        proof {
            assert(am1 =~= d->children[0]->children[0]->attrs);
            assert(meta1@ =~~= d->children[0]->children[0]);
        }
        let mut a2: Vec<Attribute> = Vec::new();
        a2.push(Attribute::key_value("http-equiv".to_owned(), "X-UA-Compatible".to_owned()));
        a2.push(Attribute::key_value("content".to_owned(), "IE=edge".to_owned()));
        let ghost am2 = attrs_model(a2@);
        let meta2 = Node::element_of("meta", a2, Vec::new());
        proof {
            assert(am2 =~= d->children[0]->children[1]->attrs);
            assert(meta2@ =~~= d->children[0]->children[1]);
        }
        let mut a3: Vec<Attribute> = Vec::new();
        a3.push(Attribute::key_value("name".to_owned(), "viewport".to_owned()));
        a3.push(
            Attribute::key_value(
                "content".to_owned(),
                "width=device-width, initial-scale=1.0".to_owned(),
            ),
        );
        let ghost am3 = attrs_model(a3@);
        let meta3 = Node::element_of("meta", a3, Vec::new());
        proof {
            assert(am3 =~= d->children[0]->children[2]->attrs);
            assert(meta3@ =~~= d->children[0]->children[2]);
        }
        let mut title_children: Vec<Node> = Vec::new();
        title_children.push(Node::text(title));
        let ghost tc = children_model(title_children@);
        let title_el = Node::element_of("title", Vec::new(), title_children);
        proof {
            lemma_children_model(title_children@);
            assert(tc =~= d->children[0]->children[3]->children);
            assert(attrs_model(Seq::<Attribute>::empty()) =~= Seq::<AttrModel>::empty());
            assert(title_el@ =~~= d->children[0]->children[3]);
        }
        let mut head_children: Vec<Node> = Vec::new();
        head_children.push(meta1);
        head_children.push(meta2);
        head_children.push(meta3);
        head_children.push(title_el);
        let ghost hc = children_model(head_children@);
        let head = Node::element_of("head", Vec::new(), head_children);
        proof {
            lemma_children_model(head_children@);
            assert(hc =~= d->children[0]->children);
            assert(head@ =~~= d->children[0]);
        }
        let mut body_children: Vec<Node> = Vec::new();
        body_children.push(Node::text(""));
        let ghost bc = children_model(body_children@);
        let body = Node::element_of("body", Vec::new(), body_children);
        proof {
            lemma_children_model(body_children@);
            assert(bc =~= d->children[1]->children);
            assert(body@ =~~= d->children[1]);
        }
        let mut html_attrs: Vec<Attribute> = Vec::new();
        html_attrs.push(Attribute::key_value("charset".to_owned(), "UTF-8".to_owned()));
        let ghost ham = attrs_model(html_attrs@);
        let mut html_children: Vec<Node> = Vec::new();
        html_children.push(head);
        html_children.push(body);
        let ghost hcm = children_model(html_children@);
        let r = Node::element_of("html", html_attrs, html_children);
        proof {
            lemma_children_model(html_children@);
            assert(ham =~= d->attrs);
            assert(hcm =~= d->children);
            assert(r@ =~~= d);
        }
        r
    }

    /// Serialize this node and, recursively, its subtree into markup text.
    pub fn render(&self) -> (r: String)
        ensures
            r@ == spec_render_node(self@),
        decreases *self, 0nat,
    {
        match self {
            Node::Comment { node_value } => {
                let mut r = String::from_str("<!--");
                r.append(node_value.as_str());
                r.append("-->");
                proof {
                    assert(r@ =~= spec_render_node(self@));
                }
                r
            },
            Node::Text { node_value } => node_value.clone(),
            Node::Element { node_name, attributes, child_nodes } => {
                let mut r = String::from_str("<");
                r.append(node_name.as_str());
                let attrs_text = render_attrs_from(attributes, 0);
                r.append(attrs_text.as_str());
                r.append(">");
                proof {
                    assert(attrs_model(attributes@).skip(0) =~= attrs_model(attributes@));
                    lemma_children_model(child_nodes@);
                }
                if child_nodes.len() == 0 {
                    proof {
                        assert(r@ =~= spec_render_node(self@));
                    }
                    r
                } else {
                    let children_text = render_children_from(child_nodes, 0);
                    r.append(children_text.as_str());
                    r.append("</");
                    r.append(node_name.as_str());
                    r.append(">");
                    proof {
                        assert(children_model(child_nodes@).skip(0) =~= children_model(
                            child_nodes@,
                        ));
                        assert(r@ =~= spec_render_node(self@));
                    }
                    r
                }
            },
        }
    }
}

} // verus!
