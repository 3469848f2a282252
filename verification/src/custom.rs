//! The custom-element helper: capitalizing the segments of a dashed tag
//! name into a class identifier and synthesizing the `script` element whose
//! text registers the custom element.

use vstd::prelude::*;
use vstd::string::StringExecFns;
use vstd::string::StrSliceExecFns;
use crate::attribute::Attribute;
use crate::attribute::AttrModel;
use crate::attribute::attrs_model;
use crate::builder::BuildError;
use crate::node::Node;
use crate::node::NodeModel;
use crate::node::children_model;
use crate::node::lemma_children_model;

verus! {

/// What `char::to_uppercase` returns for a character: its uppercase mapping,
/// a sequence of characters determined by the character alone.
pub uninterp spec fn upper_of(c: char) -> Seq<char>;

/// Relies on char::to_uppercase: the uppercase mapping of the character,
/// determined by the character alone.
#[verifier::external_body]
fn char_upper(c: char) -> (r: String)
    ensures
        r@ == upper_of(c),
{
    c.to_uppercase().collect()
}

/// A word with its first character uppercased and the rest kept unchanged;
/// an empty word stays empty.
pub open spec fn spec_capitalized(s: Seq<char>) -> Seq<char> {
    if s.len() == 0 {
        Seq::empty()
    } else {
        upper_of(s[0]) + s.drop_first()
    }
}

/// Capitalizes a word: its first character is uppercased, the rest is kept.
pub fn word(w: &str) -> (r: String)
    ensures
        r@ == spec_capitalized(w@),
{
    let n = w.unicode_len();
    if n == 0 {
        String::new()
    } else {
        let first = w.get_char(0);
        let rest = w.substring_char(1, n);
        let r = char_upper(first).concat(rest);
        proof {
            assert(r@ =~= spec_capitalized(w@));
        }
        r
    }
}

/// The model of a list of words: each string as its character sequence.
pub open spec fn words_model(s: Seq<String>) -> Seq<Seq<char>> {
    s.map_values(|w: String| w@)
}

/// The segments of a dashed tag name joined back with dashes.
pub open spec fn spec_tag_name(segments: Seq<Seq<char>>) -> Seq<char>
    decreases segments.len(),
{
    if segments.len() == 0 {
        Seq::empty()
    } else if segments.len() == 1 {
        segments[0]
    } else {
        spec_tag_name(segments.drop_last()) + "-"@ + segments.last()
    }
}

/// The class identifier for a dashed tag name: every segment capitalized,
/// the results concatenated.
pub open spec fn spec_class_name(segments: Seq<Seq<char>>) -> Seq<char>
    decreases segments.len(),
{
    if segments.len() == 0 {
        Seq::empty()
    } else {
        spec_class_name(segments.drop_last()) + spec_capitalized(segments.last())
    }
}

/// The registration snippet for a custom element: a class declaration
/// followed by a `customElements.define` call on the tag name and the class
/// identifier.
pub open spec fn spec_registration_script(segments: Seq<Seq<char>>) -> Seq<char> {
    "class PopUpInfo extends HTMLElement { constructor() { super(); } }\ncustomElements.define('"@
        + spec_tag_name(segments) + "', "@ + spec_class_name(segments) + ");"@
}

/// The custom-element registration node: a `script` element with no
/// attributes whose single text child carries the registration snippet.
pub open spec fn spec_custom_element(segments: Seq<Seq<char>>) -> NodeModel {
    NodeModel::Element {
        name: "script"@,
        attrs: Seq::empty(),
        children: seq![NodeModel::Text { value: spec_registration_script(segments) }],
    }
}

/// Builds the `script` element that registers a custom element, given the
/// dash-separated segments of its tag name: the tag name joins the segments
/// with dashes, the class identifier capitalizes each segment. Fails with
/// `MalformedBuilderInput` exactly when fewer than two segments are given or
/// some segment is empty.
pub fn define_custom_element(segments: &Vec<String>) -> (r: Result<Node, BuildError>)
    ensures
        match r {
            Ok(n) => {
                &&& segments@.len() >= 2
                &&& forall|i: int| 0 <= i < segments@.len() ==> (#[trigger] segments@[i])@.len()
                    > 0
                &&& n@ == spec_custom_element(words_model(segments@))
            },
            Err(e) => {
                &&& (segments@.len() < 2 || exists|i: int|
                    0 <= i < segments@.len() && (#[trigger] segments@[i])@.len() == 0)
                &&& e == BuildError::MalformedBuilderInput
            },
        },
{
    if segments.len() < 2 {
        return Err(BuildError::MalformedBuilderInput);
    }
    let mut k: usize = 0;
    #[verifier::loop_isolation(false)]
    while k < segments.len()
        invariant
            k <= segments@.len(),
            forall|i: int| 0 <= i < k ==> (#[trigger] segments@[i])@.len() > 0,
        decreases segments@.len() - k,
    {
        if segments[k].as_str().is_empty() {
            return Err(BuildError::MalformedBuilderInput);
        }
        k += 1;
    }
    let ghost m = words_model(segments@);
    let mut tag_name = segments[0].clone();
    let mut class_name = word(segments[0].as_str());
    proof {
        assert(m.take(1).drop_last() =~= Seq::<Seq<char>>::empty());
        assert(spec_class_name(Seq::<Seq<char>>::empty()) == Seq::<char>::empty());
        assert(m.take(1).last() == m[0]);
        assert(class_name@ =~= spec_class_name(m.take(1)));
        assert(m.take(1).len() == 1);
        assert(spec_tag_name(m.take(1)) == m.take(1)[0]);
        assert(tag_name@ == spec_tag_name(m.take(1)));
    }
    let mut i: usize = 1;
    #[verifier::loop_isolation(false)]
    while i < segments.len()
        invariant
            1 <= i <= segments@.len(),
            tag_name@ == spec_tag_name(m.take(i as int)),
            class_name@ == spec_class_name(m.take(i as int)),
        decreases segments@.len() - i,
    {
        tag_name.append("-");
        tag_name.append(segments[i].as_str());
        let cap = word(segments[i].as_str());
        class_name.append(cap.as_str());
        proof {
            assert(m.take(i + 1).drop_last() =~= m.take(i as int));
            assert(m.take(i + 1).last() == m[i as int]);
            assert(m.take(i + 1).len() == i + 1 >= 2);
            assert(tag_name@ =~= spec_tag_name(m.take(i + 1)));
            assert(class_name@ =~= spec_class_name(m.take(i + 1)));
        }
        i += 1;
    }
    proof {
        assert(m.take(segments@.len() as int) =~= m);
    }
    let mut script = String::from_str(
        "class PopUpInfo extends HTMLElement { constructor() { super(); } }\ncustomElements.define('",
    );
    script.append(tag_name.as_str());
    script.append("', ");
    script.append(class_name.as_str());
    script.append(");");
    proof {
        assert(script@ =~= spec_registration_script(m));
    }
    let mut child_nodes: Vec<Node> = Vec::new();
    child_nodes.push(Node::text(script.as_str()));
    let ghost cm = children_model(child_nodes@);
    let el = Node::element_of("script", Vec::new(), child_nodes);
    proof {
        lemma_children_model(child_nodes@);
        assert(cm =~= seq![NodeModel::Text { value: script@ }]);
        assert(attrs_model(Seq::<Attribute>::empty()) =~= Seq::<AttrModel>::empty());
        assert(el@ =~~= spec_custom_element(m));
    }
    Ok(el)
}

} // verus!
