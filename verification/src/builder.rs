//! The argument-grouping grammar: classifies a flat, heterogeneous sequence
//! of builder items into an element's ordered attribute list and ordered
//! child list, and the element constructors built on top of it.

use vstd::prelude::*;
use crate::attribute::Attribute;
use crate::attribute::AttrModel;
use crate::attribute::attrs_model;
use crate::node::Node;
use crate::node::NodeModel;
use crate::node::children_model;
use crate::node::node_model;
use crate::node::lemma_children_model_push;
use crate::node::lemma_children_model_concat;

verus! {

/// One item of a builder call. Ready-made attributes and nodes pass through;
/// spliced lists are inserted keeping their relative order; the sugar forms
/// stand for attributes built from strings; the separator marks the end of
/// the attribute section, after which every item is grouped as a child.
pub enum BuilderItem {
    /// An already-constructed attribute.
    Attr(Attribute),
    /// An already-constructed node, treated as a child.
    Child(Node),
    /// A spliced list of attributes, inserted in order.
    Attrs(Vec<Attribute>),
    /// A spliced list of nodes, inserted as children in order.
    Children(Vec<Node>),
    /// A bare name: before the separator, sugar for a flag attribute; after
    /// it, a child element with that name and no attributes or children.
    Name(String),
    /// Sugar for a key/value attribute.
    Pair { key: String, value: String },
    /// Sugar for a key/value attribute whose key contains a dash, given as
    /// the two parts around the dash (`http` and `equiv` for `http-equiv`).
    DashedPair { head: String, tail: String, value: String },
    /// The single marker dividing the attribute section from the child
    /// section.
    Separator,
}

/// Construction-time failure of a builder call.
#[derive(PartialEq, Eq, Debug)]
pub enum BuildError {
    /// An item matched none of the recognized shapes in its position.
    MalformedBuilderInput,
}

/// Whether an item matches a recognized shape at its position: `after_sep`
/// says whether the separator stands somewhere before it. A bare name or a
/// key part must be non-empty, attribute-shaped items may not follow the
/// separator, and only one separator is recognized.
pub open spec fn item_ok(item: BuilderItem, after_sep: bool) -> bool {
    match item {
        BuilderItem::Attr(_) => !after_sep,
        BuilderItem::Child(_) => true,
        BuilderItem::Attrs(_) => !after_sep,
        BuilderItem::Children(_) => true,
        BuilderItem::Name(name) => name@.len() > 0,
        BuilderItem::Pair { key, value } => !after_sep && key@.len() > 0,
        BuilderItem::DashedPair { head, tail, value } => !after_sep && head@.len() > 0
            && tail@.len() > 0,
        BuilderItem::Separator => !after_sep,
    }
}

/// How one well-shaped item extends the grouping state: the attributes so
/// far, the children so far, and whether the separator has been passed.
pub open spec fn apply_item(
    attrs: Seq<AttrModel>,
    children: Seq<NodeModel>,
    after_sep: bool,
    item: BuilderItem,
) -> (Seq<AttrModel>, Seq<NodeModel>, bool) {
    match item {
        BuilderItem::Attr(a) => (attrs.push(a@), children, after_sep),
        BuilderItem::Child(n) => (attrs, children.push(node_model(n)), after_sep),
        BuilderItem::Attrs(more) => (attrs + attrs_model(more@), children, after_sep),
        BuilderItem::Children(more) => (attrs, children + children_model(more@), after_sep),
        BuilderItem::Name(name) => if after_sep {
            (
                attrs,
                children.push(
                    NodeModel::Element {
                        name: name@,
                        attrs: Seq::empty(),
                        children: Seq::empty(),
                    },
                ),
                true,
            )
        } else {
            (attrs.push(AttrModel::Boolean { name: name@ }), children, false)
        },
        BuilderItem::Pair { key, value } => (
            attrs.push(AttrModel::Normal { key: key@, value: value@ }),
            children,
            after_sep,
        ),
        BuilderItem::DashedPair { head, tail, value } => (
            attrs.push(AttrModel::Normal { key: head@ + "-"@ + tail@, value: value@ }),
            children,
            after_sep,
        ),
        BuilderItem::Separator => (attrs, children, true),
    }
}

/// Grouping from an intermediate state: processes the items left to right,
/// extending the state with each well-shaped item, and fails on the first
/// item that matches no recognized shape.
pub open spec fn group_from(
    attrs: Seq<AttrModel>,
    children: Seq<NodeModel>,
    after_sep: bool,
    items: Seq<BuilderItem>,
) -> Option<(Seq<AttrModel>, Seq<NodeModel>)>
    decreases items.len(),
{
    if items.len() == 0 {
        Some((attrs, children))
    } else if !item_ok(items[0], after_sep) {
        None
    } else {
        let (a2, c2, s2) = apply_item(attrs, children, after_sep, items[0]);
        group_from(a2, c2, s2, items.drop_first())
    }
}

/// The grouping grammar: the two ordered lists that a sequence of builder
/// items denotes, or nothing if some item matches no recognized shape.
pub open spec fn spec_group(items: Seq<BuilderItem>) -> Option<(Seq<AttrModel>, Seq<NodeModel>)> {
    group_from(Seq::empty(), Seq::empty(), false, items)
}

/// Runs the grouping grammar over `items` and returns the attribute list and
/// child list, in the order the items appeared, or fails with
/// `MalformedBuilderInput` exactly when some item matches no recognized
/// shape in its position.
pub fn group_items(items: Vec<BuilderItem>) -> (r: Result<
    (Vec<Attribute>, Vec<Node>),
    BuildError,
>)
    ensures
        match r {
            Ok(p) => spec_group(items@) == Some((attrs_model(p.0@), children_model(p.1@))),
            Err(e) => spec_group(items@) is None && e == BuildError::MalformedBuilderInput,
        },
{
    let ghost orig = items@;
    let mut items = items;
    let mut attrs: Vec<Attribute> = Vec::new();
    let mut children: Vec<Node> = Vec::new();
    let mut after_sep = false;
    proof {
        crate::node::lemma_children_model(children@);
        assert(attrs_model(attrs@) =~= Seq::<AttrModel>::empty());
        assert(children_model(children@) =~= Seq::<NodeModel>::empty());
    }
    #[verifier::loop_isolation(false)]
    while items.len() > 0
        invariant
            spec_group(orig) == group_from(
                attrs_model(attrs@),
                children_model(children@),
                after_sep,
                items@,
            ),
        decreases items@.len(),
    {
        let ghost pre_items = items@;
        let ghost pre_attrs = attrs_model(attrs@);
        let ghost pre_children = children_model(children@);
        let ghost pre_sep = after_sep;
        let item = items.remove(0);
        proof {
            assert(items@ =~= pre_items.drop_first());
        }
        let ghost stepped = apply_item(pre_attrs, pre_children, pre_sep, pre_items[0]);
        match item {
            BuilderItem::Attr(a) => {
                if after_sep {
                    proof {
                        assert(group_from(pre_attrs, pre_children, pre_sep, pre_items) is None);
                    }
                    return Err(BuildError::MalformedBuilderInput);
                }
                proof {
                    assert(attrs_model(attrs@.push(a)) =~= attrs_model(attrs@).push(a@));
                }
                attrs.push(a);
                proof {
                    assert(attrs_model(attrs@) == stepped.0);
                    assert(children_model(children@) == stepped.1);
                    assert(after_sep == stepped.2);
                }
            },
            BuilderItem::Child(n) => {
                proof {
                    lemma_children_model_push(children@, n);
                }
                children.push(n);
                proof {
                    assert(attrs_model(attrs@) == stepped.0);
                    assert(children_model(children@) == stepped.1);
                    assert(after_sep == stepped.2);
                }
            },
            BuilderItem::Attrs(more) => {
                if after_sep {
                    proof {
                        assert(group_from(pre_attrs, pre_children, pre_sep, pre_items) is None);
                    }
                    return Err(BuildError::MalformedBuilderInput);
                }
                let mut more = more;
                proof {
                    assert(attrs_model(attrs@ + more@) =~= attrs_model(attrs@) + attrs_model(
                        more@,
                    ));
                }
                attrs.append(&mut more);
                proof {
                    assert(attrs_model(attrs@) == stepped.0);
                    assert(children_model(children@) == stepped.1);
                    assert(after_sep == stepped.2);
                }
            },
            BuilderItem::Children(more) => {
                let mut more = more;
                proof {
                    lemma_children_model_concat(children@, more@);
                }
                children.append(&mut more);
                proof {
                    assert(attrs_model(attrs@) == stepped.0);
                    assert(children_model(children@) == stepped.1);
                    assert(after_sep == stepped.2);
                }
            },
            BuilderItem::Name(name) => {
                if name.as_str().is_empty() {
                    proof {
                        assert(group_from(pre_attrs, pre_children, pre_sep, pre_items) is None);
                    }
                    return Err(BuildError::MalformedBuilderInput);
                }
                if after_sep {
                    let child = Node::Element {
                        node_name: name,
                        attributes: Vec::new(),
                        child_nodes: Vec::new(),
                    };
                    proof {
                        assert(attrs_model(Seq::<Attribute>::empty())
                            =~= Seq::<AttrModel>::empty());
                        assert(children_model(Seq::<Node>::empty())
                            =~= Seq::<NodeModel>::empty());
                        lemma_children_model_push(children@, child);
                    }
                    children.push(child);
                } else {
                    let a = Attribute::Boolean(name);
                    proof {
                        assert(attrs_model(attrs@.push(a)) =~= attrs_model(attrs@).push(a@));
                    }
                    attrs.push(a);
                }
            },
            BuilderItem::Pair { key, value } => {
                if key.as_str().is_empty() {
                    proof {
                        assert(group_from(pre_attrs, pre_children, pre_sep, pre_items) is None);
                    }
                    return Err(BuildError::MalformedBuilderInput);
                }
                if after_sep {
                    proof {
                        assert(group_from(pre_attrs, pre_children, pre_sep, pre_items) is None);
                    }
                    return Err(BuildError::MalformedBuilderInput);
                }
                let a = Attribute::Normal { key, value };
                proof {
                    assert(attrs_model(attrs@.push(a)) =~= attrs_model(attrs@).push(a@));
                }
                attrs.push(a);
            },
            BuilderItem::DashedPair { head, tail, value } => {
                if head.as_str().is_empty() || tail.as_str().is_empty() || after_sep {
                    proof {
                        assert(group_from(pre_attrs, pre_children, pre_sep, pre_items) is None);
                    }
                    return Err(BuildError::MalformedBuilderInput);
                }
                let a = Attribute::dashed_key_value(head, tail, value);
                proof {
                    assert(attrs_model(attrs@.push(a)) =~= attrs_model(attrs@).push(a@));
                }
                attrs.push(a);
            },
            BuilderItem::Separator => {
                if after_sep {
                    proof {
                        assert(group_from(pre_attrs, pre_children, pre_sep, pre_items) is None);
                    }
                    return Err(BuildError::MalformedBuilderInput);
                }
                after_sep = true;
            },
        }
    }
    proof {
        assert(group_from(
            attrs_model(attrs@),
            children_model(children@),
            after_sep,
            items@,
        ) == Some((attrs_model(attrs@), children_model(children@))));
    }
    Ok((attrs, children))
}

/// Builds an element named `name` whose attributes and children come from
/// running the grouping grammar over `items`, both lists in the order the
/// items appeared. Fails with `MalformedBuilderInput` exactly when some item
/// matches no recognized shape in its position.
pub fn build_element(name: &str, items: Vec<BuilderItem>) -> (r: Result<Node, BuildError>)
    ensures
        match r {
            Ok(n) => spec_group(items@) matches Some(g) && n@ == (NodeModel::Element {
                name: name@,
                attrs: g.0,
                children: g.1,
            }),
            Err(e) => spec_group(items@) is None && e == BuildError::MalformedBuilderInput,
        },
{
    match group_items(items) {
        Ok((attributes, child_nodes)) => Ok(Node::element_of(name, attributes, child_nodes)),
        Err(e) => Err(e),
    }
}

/// Extends an existing element: the attributes and children grouped from
/// `items` come first, and the element's own attributes and children are
/// appended after them. A base node that is not an element is returned
/// unchanged, its items never grouped. Fails with `MalformedBuilderInput`
/// exactly when the base is an element and some item matches no recognized
/// shape in its position.
pub fn extend_element(base: Node, items: Vec<BuilderItem>) -> (r: Result<Node, BuildError>)
    ensures
        match r {
            Ok(n) => match base@ {
                NodeModel::Element { name, attrs, children } => {
                    &&& spec_group(items@) matches Some(g)
                    &&& n@ == (NodeModel::Element {
                        name,
                        attrs: g.0 + attrs,
                        children: g.1 + children,
                    })
                },
                _ => n@ == base@,
            },
            Err(e) => base@ is Element && spec_group(items@) is None && e
                == BuildError::MalformedBuilderInput,
        },
{
    match base {
        Node::Element { node_name, attributes, child_nodes } => {
            let mut attributes = attributes;
            let mut child_nodes = child_nodes;
            match group_items(items) {
                Ok((new_attributes, new_child_nodes)) => {
                    let mut new_attributes = new_attributes;
                    let mut new_child_nodes = new_child_nodes;
                    proof {
                        assert(attrs_model(new_attributes@ + attributes@) =~= attrs_model(
                            new_attributes@,
                        ) + attrs_model(attributes@));
                        lemma_children_model_concat(new_child_nodes@, child_nodes@);
                    }
                    new_attributes.append(&mut attributes);
                    new_child_nodes.append(&mut child_nodes);
                    Ok(
                        Node::Element {
                            node_name,
                            attributes: new_attributes,
                            child_nodes: new_child_nodes,
                        },
                    )
                },
                Err(e) => Err(e),
            }
        },
        _ => Ok(base),
    }
}

/// Order preservation for attributes: a sequence of ready-made attribute
/// items groups into exactly those attributes, in the order the caller gave
/// them, with no children. Rendered inside an element, they therefore appear
/// in the opening tag in that same order, since `spec_render_attrs` emits a
/// stored list left to right.
pub proof fn lemma_attribute_order(items: Seq<BuilderItem>)
    requires
        forall|i: int| 0 <= i < items.len() ==> items[i] is Attr,
    ensures
        spec_group(items) == Some(
            (items.map_values(|it: BuilderItem| it->Attr_0@), Seq::<NodeModel>::empty()),
        ),
{
    lemma_group_from_attrs(Seq::empty(), Seq::empty(), items);
    assert(Seq::empty() + items.map_values(|it: BuilderItem| it->Attr_0@) =~= items.map_values(
        |it: BuilderItem| it->Attr_0@,
    ));
}

proof fn lemma_group_from_attrs(
    attrs: Seq<AttrModel>,
    children: Seq<NodeModel>,
    items: Seq<BuilderItem>,
)
    requires
        forall|i: int| 0 <= i < items.len() ==> items[i] is Attr,
    ensures
        group_from(attrs, children, false, items) == Some(
            (attrs + items.map_values(|it: BuilderItem| it->Attr_0@), children),
        ),
    decreases items.len(),
{
    let f = |it: BuilderItem| it->Attr_0@;
    if items.len() == 0 {
        assert(attrs + items.map_values(f) =~= attrs);
    } else {
        let a = items[0]->Attr_0;
        lemma_group_from_attrs(attrs.push(a@), children, items.drop_first());
        assert(attrs.push(a@) + items.drop_first().map_values(f) =~= attrs + items.map_values(
            f,
        ));
    }
}

/// Order preservation for children: a sequence of ready-made node items
/// groups into exactly those nodes as children, in the order the caller gave
/// them, with no attributes. Rendered inside an element, each child's markup
/// therefore appears immediately before the next one's, since
/// `spec_render_children` emits a stored list left to right.
pub proof fn lemma_child_order(items: Seq<BuilderItem>)
    requires
        forall|i: int| 0 <= i < items.len() ==> items[i] is Child,
    ensures
        spec_group(items) == Some(
            (
                Seq::<AttrModel>::empty(),
                items.map_values(|it: BuilderItem| node_model(it->Child_0)),
            ),
        ),
{
    lemma_group_from_children(Seq::empty(), Seq::empty(), false, items);
    assert(Seq::empty() + items.map_values(|it: BuilderItem| node_model(it->Child_0))
        =~= items.map_values(|it: BuilderItem| node_model(it->Child_0)));
}

proof fn lemma_group_from_children(
    attrs: Seq<AttrModel>,
    children: Seq<NodeModel>,
    after_sep: bool,
    items: Seq<BuilderItem>,
)
    requires
        forall|i: int| 0 <= i < items.len() ==> items[i] is Child,
    ensures
        group_from(attrs, children, after_sep, items) == Some(
            (attrs, children + items.map_values(|it: BuilderItem| node_model(it->Child_0))),
        ),
    decreases items.len(),
{
    let f = |it: BuilderItem| node_model(it->Child_0);
    if items.len() == 0 {
        assert(children + items.map_values(f) =~= children);
    } else {
        let n = items[0]->Child_0;
        lemma_group_from_children(attrs, children.push(node_model(n)), after_sep,
            items.drop_first());
        assert(children.push(node_model(n)) + items.drop_first().map_values(f) =~= children
            + items.map_values(f));
    }
}

/// A dashed key form groups to a single key/value attribute whose key joins
/// the two parts around a dash, not to two separate items.
pub proof fn lemma_dashed_pair(item: BuilderItem)
    requires
        item is DashedPair,
        item->DashedPair_head@.len() > 0,
        item->DashedPair_tail@.len() > 0,
    ensures
        spec_group(seq![item]) == Some(
            (
                seq![
                    AttrModel::Normal {
                        key: item->DashedPair_head@ + "-"@ + item->DashedPair_tail@,
                        value: item->DashedPair_value@,
                    },
                ],
                Seq::<NodeModel>::empty(),
            ),
        ),
{
    let m = AttrModel::Normal {
        key: item->DashedPair_head@ + "-"@ + item->DashedPair_tail@,
        value: item->DashedPair_value@,
    };
    assert(seq![item].drop_first() =~= Seq::<BuilderItem>::empty());
    assert(group_from(
        Seq::<AttrModel>::empty().push(m),
        Seq::<NodeModel>::empty(),
        false,
        Seq::<BuilderItem>::empty(),
    ) == Some((Seq::<AttrModel>::empty().push(m), Seq::<NodeModel>::empty())));
    assert(Seq::<AttrModel>::empty().push(
        AttrModel::Normal {
            key: item->DashedPair_head@ + "-"@ + item->DashedPair_tail@,
            value: item->DashedPair_value@,
        },
    ) =~= seq![
        AttrModel::Normal {
            key: item->DashedPair_head@ + "-"@ + item->DashedPair_tail@,
            value: item->DashedPair_value@,
        },
    ]);
}

/// Whether the separator stands somewhere before position `i`.
pub open spec fn separator_before(items: Seq<BuilderItem>, i: int) -> bool {
    exists|j: int| 0 <= j < i && (#[trigger] items[j]) is Separator
}

/// Malformed input: the grouping grammar fails exactly when some item
/// matches no recognized shape in its position, and never drops or
/// misclassifies one.
pub proof fn lemma_group_fails_iff_malformed(items: Seq<BuilderItem>)
    ensures
        spec_group(items) is None <==> exists|i: int|
            0 <= i < items.len() && !item_ok(#[trigger] items[i], separator_before(items, i)),
{
    lemma_group_from_fails(Seq::empty(), Seq::empty(), false, items);
}

proof fn lemma_separator_shift(items: Seq<BuilderItem>, i: int)
    requires
        1 <= i <= items.len(),
    ensures
        separator_before(items, i) == (items[0] is Separator || separator_before(
            items.drop_first(),
            i - 1,
        )),
{
    let rest = items.drop_first();
    if separator_before(items, i) {
        let j = choose|j: int| 0 <= j < i && (#[trigger] items[j]) is Separator;
        if j > 0 {
            assert(rest[j - 1] == items[j]);
            assert(separator_before(rest, i - 1));
        }
    }
    if items[0] is Separator {
        assert(separator_before(items, i));
    }
    if separator_before(rest, i - 1) {
        let j = choose|j: int| 0 <= j < i - 1 && (#[trigger] rest[j]) is Separator;
        assert(items[j + 1] == rest[j]);
        assert(separator_before(items, i));
    }
}

proof fn lemma_group_from_fails(
    attrs: Seq<AttrModel>,
    children: Seq<NodeModel>,
    after_sep: bool,
    items: Seq<BuilderItem>,
)
    ensures
        group_from(attrs, children, after_sep, items) is None <==> exists|i: int|
            0 <= i < items.len() && !item_ok(#[trigger] items[i], after_sep || separator_before(items, i)),
    decreases items.len(),
{
    if items.len() == 0 {
    } else {
        assert(!separator_before(items, 0));
        if !item_ok(items[0], after_sep) {
            assert(!item_ok(items[0], after_sep || separator_before(items, 0)));
        } else {
            let rest = items.drop_first();
            let stepped = apply_item(attrs, children, after_sep, items[0]);
            let s2 = stepped.2;
            assert(s2 == (after_sep || items[0] is Separator));
            lemma_group_from_fails(stepped.0, stepped.1, s2, rest);
            assert forall|i: int| 1 <= i < items.len() implies (after_sep || separator_before(
                items,
                i,
            )) == (s2 || separator_before(rest, i - 1)) by {
                lemma_separator_shift(items, i);
            };
            if group_from(attrs, children, after_sep, items) is None {
                let i0 = choose|i: int|
                    0 <= i < rest.len() && !item_ok(#[trigger] rest[i], s2 || separator_before(rest, i));
                assert(items[i0 + 1] == rest[i0]);
                assert(!item_ok(items[i0 + 1], after_sep || separator_before(items, i0 + 1)));
            }
            if exists|i: int|
                0 <= i < items.len() && !item_ok(#[trigger] items[i], after_sep || separator_before(items, i)) {
                let i1 = choose|i: int|
                    0 <= i < items.len() && !item_ok(#[trigger] items[i], after_sep || separator_before(items, i));
                assert(i1 >= 1);
                assert(rest[i1 - 1] == items[i1]);
                assert(!item_ok(rest[i1 - 1], s2 || separator_before(rest, i1 - 1)));
            }
        }
    }
}

} // verus!
