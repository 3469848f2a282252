use topus::Attribute;
use topus::DOM;
use topus::Node;
use topus::builder::BuildError;
use topus::builder::BuilderItem;
use topus::builder::build_element;
use topus::builder::extend_element;
use topus::builder::group_items;
use topus::custom::define_custom_element;
use topus::custom::word;

#[test]
fn render_flag_and_key_value() {
    let flag = Attribute::flag("hidden".to_string());
    assert_eq!("hidden", flag.render());
    let kv = Attribute::key_value("style".to_string(), "display: None".to_string());
    assert_eq!("style=\"display: None\"", kv.render());
}

#[test]
fn attribute_order_is_kept() {
    let a = build_element(
        "a",
        vec![
            BuilderItem::Attr(Attribute::flag("hidden".to_string())),
            BuilderItem::Attr(Attribute::key_value(
                "style".to_string(),
                "display:None".to_string(),
            )),
        ],
    )
    .unwrap();
    assert_eq!("<a hidden style=\"display:None\">", a.render());
}

#[test]
fn child_order_is_kept() {
    let el = build_element(
        "p",
        vec![
            BuilderItem::Child(Node::text("one")),
            BuilderItem::Child(Node::text("two")),
        ],
    )
    .unwrap();
    assert_eq!("<p>onetwo</p>", el.render());
}

#[test]
fn spliced_lists_keep_order() {
    let el = build_element(
        "a",
        vec![
            BuilderItem::Attrs(vec![
                Attribute::flag("hidden".to_string()),
                Attribute::key_value("rel".to_string(), "next".to_string()),
            ]),
            BuilderItem::Children(vec![Node::text("one"), Node::comment("two")]),
        ],
    )
    .unwrap();
    assert_eq!("<a hidden rel=\"next\">one<!--two--></a>", el.render());
}

#[test]
fn empty_element_has_no_closing_tag() {
    let a = build_element("a", vec![]).unwrap();
    assert_eq!("<a>", a.render());
}

#[test]
fn doctype_renders_as_literal() {
    let doctype = build_element(
        "!DOCTYPE",
        vec![BuilderItem::Attr(Attribute::flag("html".to_string()))],
    )
    .unwrap();
    assert_eq!("<!DOCTYPE html>", doctype.render());
    assert_eq!("<!DOCTYPE html>", Node::default_doctype().render());
}

#[test]
fn comment_and_text_render_as_literals() {
    assert_eq!("<!--comment-->", Node::comment("comment").render());
    assert_eq!("hello world", Node::text("hello world").render());
}

#[test]
fn default_document_renders_exactly() {
    let expected = "<!DOCTYPE html><html charset=\"UTF-8\"><head><meta charset=\"UTF-8\"><meta http-equiv=\"X-UA-Compatible\" content=\"IE=edge\"><meta name=\"viewport\" content=\"width=device-width, initial-scale=1.0\"><title>Document</title></head><body></body></html>";
    assert_eq!(expected, DOM::default().render());
    assert_eq!(expected, DOM::from_title("Document").render());
}

#[test]
fn dashed_pair_groups_to_one_attribute() {
    let (attributes, child_nodes) = group_items(vec![BuilderItem::DashedPair {
        head: "http".to_string(),
        tail: "equiv".to_string(),
        value: "X-UA-Compatible".to_string(),
    }])
    .unwrap();
    assert_eq!(
        vec![Attribute::Normal {
            key: "http-equiv".to_string(),
            value: "X-UA-Compatible".to_string(),
        }],
        attributes
    );
    assert!(child_nodes.is_empty());
}

#[test]
fn malformed_items_fail_construction() {
    assert_eq!(
        Err(BuildError::MalformedBuilderInput),
        group_items(vec![BuilderItem::Name("".to_string())])
    );
    assert_eq!(
        Err(BuildError::MalformedBuilderInput),
        group_items(vec![BuilderItem::Pair {
            key: "".to_string(),
            value: "x".to_string(),
        }])
    );
    assert_eq!(
        Err(BuildError::MalformedBuilderInput),
        group_items(vec![BuilderItem::DashedPair {
            head: "http".to_string(),
            tail: "".to_string(),
            value: "x".to_string(),
        }])
    );
    assert_eq!(
        Err(BuildError::MalformedBuilderInput),
        group_items(vec![BuilderItem::Separator, BuilderItem::Separator])
    );
    assert_eq!(
        Err(BuildError::MalformedBuilderInput),
        group_items(vec![
            BuilderItem::Separator,
            BuilderItem::Attr(Attribute::flag("hidden".to_string())),
        ])
    );
    assert_eq!(
        Err(BuildError::MalformedBuilderInput),
        group_items(vec![
            BuilderItem::Separator,
            BuilderItem::Pair { key: "a".to_string(), value: "b".to_string() },
        ])
    );
    assert!(build_element("a", vec![BuilderItem::Name("".to_string())]).is_err());
}

#[test]
fn name_after_separator_is_a_child_element() {
    let el = build_element(
        "ul",
        vec![
            BuilderItem::Name("hidden".to_string()),
            BuilderItem::Separator,
            BuilderItem::Name("li".to_string()),
        ],
    )
    .unwrap();
    assert_eq!("<ul hidden><li></ul>", el.render());
}

#[test]
fn extend_element_puts_new_parts_first() {
    let base = build_element(
        "a",
        vec![
            BuilderItem::Attr(Attribute::flag("old".to_string())),
            BuilderItem::Child(Node::text("tail")),
        ],
    )
    .unwrap();
    let extended = extend_element(
        base,
        vec![
            BuilderItem::Attr(Attribute::flag("new".to_string())),
            BuilderItem::Child(Node::text("front")),
        ],
    )
    .unwrap();
    assert_eq!("<a new old>fronttail</a>", extended.render());
}

#[test]
fn extend_element_keeps_leaves_unchanged() {
    let text = Node::text("plain");
    let kept = extend_element(text, vec![BuilderItem::Name("".to_string())]).unwrap();
    assert_eq!("plain", kept.render());
}

#[test]
fn extend_element_rejects_malformed_items() {
    let base = build_element("a", vec![]).unwrap();
    assert_eq!(
        Err(BuildError::MalformedBuilderInput),
        extend_element(base, vec![BuilderItem::Name("".to_string())])
    );
}

#[test]
fn word_capitalizes_first_character() {
    assert_eq!("Topus", word("topus"));
    assert_eq!("Custom", word("custom"));
    assert_eq!("", word(""));
    assert_eq!("A", word("a"));
}

#[test]
fn custom_element_script() {
    let el = define_custom_element(&vec!["my".to_string(), "custom".to_string()]).unwrap();
    assert_eq!(
        "<script>class PopUpInfo extends HTMLElement { constructor() { super(); } }\ncustomElements.define('my-custom', MyCustom);</script>",
        el.render()
    );
}

#[test]
fn custom_element_needs_two_nonempty_segments() {
    assert_eq!(
        Err(BuildError::MalformedBuilderInput),
        define_custom_element(&vec!["my".to_string()])
    );
    assert_eq!(
        Err(BuildError::MalformedBuilderInput),
        define_custom_element(&vec!["my".to_string(), "".to_string()])
    );
}
