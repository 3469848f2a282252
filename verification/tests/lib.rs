use topus::Attribute;
use topus::Node;
use topus::builder::BuilderItem;
use topus::builder::build_element;
use topus::builder::group_items;

#[test]
fn lib_test_attribute() {
    let hidden = Attribute::Boolean("hidden".to_string());
    let style = Attribute::Normal {
        key: "style".to_string(),
        value: "display: None".to_string(),
    };
    let http_equiv = Attribute::Normal {
        key: "http-equiv".to_string(),
        value: "X-UA-Compatible".to_string(),
    };

    let built_hidden = Attribute::flag("hidden".to_string());
    let built_style = Attribute::key_value("style".to_string(), "display: None".to_string());
    let built_http_equiv = Attribute::dashed_key_value(
        "http".to_string(),
        "equiv".to_string(),
        "X-UA-Compatible".to_string(),
    );

    assert_eq!(hidden, built_hidden);
    assert_eq!(style, built_style);
    assert_eq!(http_equiv, built_http_equiv);

    let (attributes, child_nodes) = group_items(vec![
        BuilderItem::Name("html".to_string()),
        BuilderItem::Pair { key: "style".to_string(), value: "display:None".to_string() },
    ])
    .unwrap();
    assert_eq!(
        vec![
            Attribute::Boolean("html".to_string()),
            Attribute::Normal { key: "style".to_string(), value: "display:None".to_string() },
        ],
        attributes
    );
    assert!(child_nodes.is_empty());
}

#[test]
fn lib_test_node() {
    let text = Node::Text { node_value: "hello world".to_string() };
    let comment = Node::Comment { node_value: "comment".to_string() };

    let doctype = Node::Element {
        node_name: "!DOCTYPE".to_string(),
        attributes: vec![Attribute::Boolean("html".to_string())],
        child_nodes: Vec::with_capacity(0),
    };
    let a = Node::Element {
        node_name: "a".to_string(),
        attributes: vec![
            Attribute::Boolean("hidden".to_string()),
            Attribute::Normal { key: "style".to_string(), value: "display:None".to_string() },
        ],
        child_nodes: Vec::with_capacity(0),
    };

    let built_text = Node::text("hello world");
    let built_comment = Node::comment("comment");

    let built_doctype = Node::default_doctype();
    let built_a = build_element(
        "a",
        vec![
            BuilderItem::Name("hidden".to_string()),
            BuilderItem::Pair { key: "style".to_string(), value: "display:None".to_string() },
        ],
    )
    .unwrap();

    assert_eq!(text, built_text);
    assert_eq!(comment, built_comment);
    assert_eq!(doctype, built_doctype);

    assert_eq!(a, built_a);
    assert_eq!("<a hidden style=\"display:None\">".to_string(), built_a.render());

    let (attributes, nodes) = group_items(vec![
        BuilderItem::Separator,
        BuilderItem::Name("head".to_string()),
        BuilderItem::Name("body".to_string()),
    ])
    .unwrap();
    assert!(attributes.is_empty());
    assert_eq!(
        vec![build_element("head", vec![]).unwrap(), build_element("body", vec![]).unwrap()],
        nodes
    );
}

#[test]
fn lib_test_expression() {
    let title = "Topus";
    let head = build_element(
        "head",
        vec![
            BuilderItem::Separator,
            BuilderItem::Child(
                build_element(
                    "meta",
                    vec![BuilderItem::Pair {
                        key: "charset".to_string(),
                        value: "UTF-8".to_string(),
                    }],
                )
                .unwrap(),
            ),
            BuilderItem::Child(
                build_element(
                    "meta",
                    vec![
                        BuilderItem::DashedPair {
                            head: "http".to_string(),
                            tail: "equiv".to_string(),
                            value: "X-UA-Compatible".to_string(),
                        },
                        BuilderItem::Pair {
                            key: "content".to_string(),
                            value: "IE=edge".to_string(),
                        },
                    ],
                )
                .unwrap(),
            ),
            BuilderItem::Child(
                build_element(
                    "meta",
                    vec![
                        BuilderItem::Pair {
                            key: "name".to_string(),
                            value: "viewport".to_string(),
                        },
                        BuilderItem::Pair {
                            key: "content".to_string(),
                            value: "width=device-width, initial-scale=1.0".to_string(),
                        },
                    ],
                )
                .unwrap(),
            ),
            BuilderItem::Child(
                build_element(
                    "title",
                    vec![BuilderItem::Separator, BuilderItem::Child(Node::text(title))],
                )
                .unwrap(),
            ),
        ],
    )
    .unwrap();
    let html = build_element(
        "html",
        vec![
            BuilderItem::Pair { key: "charset".to_string(), value: "UTF-8".to_string() },
            BuilderItem::Separator,
            BuilderItem::Child(head),
            BuilderItem::Child(
                build_element(
                    "body",
                    vec![BuilderItem::Separator, BuilderItem::Child(Node::text(""))],
                )
                .unwrap(),
            ),
        ],
    )
    .unwrap();
    assert_eq!("<html charset=\"UTF-8\"><head><meta charset=\"UTF-8\"><meta http-equiv=\"X-UA-Compatible\" content=\"IE=edge\"><meta name=\"viewport\" content=\"width=device-width, initial-scale=1.0\"><title>Topus</title></head><body></body></html>", html.render());
}
