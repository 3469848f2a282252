//! Attributes of an element: a bare flag (`hidden`) or a key/value pair
//! (`style="display: None"`), together with their text rendering.

use vstd::prelude::*;
use vstd::string::StringExecFns;

verus! {

/// An attribute has two variants.
/// - `Boolean`: a presence flag such as `html` or `hidden`.
/// - `Normal`: a key/value pair such as `style="display: None"`.
///
/// Keys and names are meant to be non-empty; no validation of their
/// characters is performed (that is the caller's responsibility).
#[derive(PartialEq, Eq, Debug)]
pub enum Attribute {
    Boolean(String),
    Normal { key: String, value: String },
}

/// Mathematical model of an attribute: its strings as character sequences.
#[verifier::ext_equal]
pub enum AttrModel {
    Boolean { name: Seq<char> },
    Normal { key: Seq<char>, value: Seq<char> },
}

impl View for Attribute {
    type V = AttrModel;

    open spec fn view(&self) -> AttrModel {
        match self {
            Attribute::Boolean(name) => AttrModel::Boolean { name: name@ },
            Attribute::Normal { key, value } => AttrModel::Normal { key: key@, value: value@ },
        }
    }
}

/// The model of a sequence of attributes.
pub open spec fn attrs_model(s: Seq<Attribute>) -> Seq<AttrModel> {
    s.map_values(|a: Attribute| a@)
}

/// A flag renders as its name verbatim; a key/value pair renders as
/// `key="value"`, the value inserted literally between double quotes.
pub open spec fn spec_render_attr(a: AttrModel) -> Seq<char> {
    match a {
        AttrModel::Boolean { name } => name,
        AttrModel::Normal { key, value } => key + "=\""@ + value + "\""@,
    }
}

impl Attribute {
    /// A bare flag attribute, such as `hidden`.
    pub fn flag(name: String) -> (r: Attribute)
        requires
            name@.len() > 0,
        ensures
            r@ == (AttrModel::Boolean { name: name@ }),
    {
        Attribute::Boolean(name)
    }

    /// A key/value attribute, such as `style="display: None"`.
    pub fn key_value(key: String, value: String) -> (r: Attribute)
        requires
            key@.len() > 0,
        ensures
            r@ == (AttrModel::Normal { key: key@, value: value@ }),
    {
        Attribute::Normal { key, value }
    }

    /// A key/value attribute whose key contains a dash, built from the two
    /// parts around the dash; `http` and `equiv` yield the key `http-equiv`.
    pub fn dashed_key_value(head: String, tail: String, value: String) -> (r: Attribute)
        requires
            head@.len() > 0,
            tail@.len() > 0,
        ensures
            r@ == (AttrModel::Normal { key: head@ + "-"@ + tail@, value: value@ }),
    {
        let key = head.concat("-").concat(tail.as_str());
        proof {
            assert(key@ =~= head@ + "-"@ + tail@);
        }
        Attribute::Normal { key, value }
    }

    /// Serialize this attribute: the name verbatim for a flag, `key="value"`
    /// for a key/value pair.
    pub fn render(&self) -> (r: String)
        ensures
            r@ == spec_render_attr(self@),
    {
        match self {
            Attribute::Boolean(name) => name.clone(),
            Attribute::Normal { key, value } => {
                let mut r = key.clone();
                r.append("=\"");
                r.append(value.as_str());
                r.append("\"");
                proof {
                    assert(r@ =~= spec_render_attr(self@));
                }
                r
            },
        }
    }
}

} // verus!
