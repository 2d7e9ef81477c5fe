//! The YAML document model that the storage parser reads: scalars, sequences,
//! mappings in their written order, and tagged values. Nodes that are not
//! scalars carry the text that the YAML library's debug formatting gives for
//! them, which is how such a node reads as a default value.

use vstd::prelude::*;
use crate::text::views;
use serde_yaml::Value;

verus! {

/// The YAML library's document node.
#[verifier::external_type_specification]
#[verifier::external_body]
pub struct ExYamlNode(Value);

/// The document that `serde_yaml::from_str` reads from a text, as this
/// library's model, or none when the text is not valid YAML.
pub uninterp spec fn yaml_document_of(text: Seq<char>) -> Option<YamlValue>;

/// Converts a node of the YAML library into this library's model, one node
/// for one node: variants, scalars, entry order and tags are kept, and each
/// non-scalar node keeps its debug text. Nothing is stated of it; its result
/// is only used inside `yaml_document`.
#[verifier::external_body]
fn yaml_node(v: &Value) -> YamlValue {
    let rendered = format!("{:?}", v);
    match v {
        Value::Null => YamlValue::Null { rendered },
        Value::Bool(b) => YamlValue::Bool(*b),
        Value::Number(n) => YamlValue::Number(n.to_string()),
        Value::String(s) => YamlValue::String(s.clone()),
        Value::Sequence(s) => YamlValue::Sequence { items: s.iter().map(yaml_node).collect(), rendered },
        Value::Mapping(m) => YamlValue::Mapping { entries: m.iter().map(|(k, x)| (yaml_node(k), yaml_node(x))).collect(), rendered },
        Value::Tagged(t) => YamlValue::Tagged { value: Box::new(yaml_node(&t.value)), rendered },
    }
}

/// Calls `serde_yaml::from_str` for a `serde_yaml::Value` and converts the
/// document; `None` when serde_yaml reports an error. The contract names the
/// result, a function of the text alone (YAML syntax is serde_yaml's and is
/// not restated).
#[verifier::external_body]
pub(crate) fn yaml_document(text: &str) -> (r: Option<YamlValue>)
    ensures
        r == yaml_document_of(text@),
{
    match serde_yaml::from_str::<Value>(text) {
        Ok(v) => Some(yaml_node(&v)),
        Err(_) => None,
    }
}

/// A YAML node.
#[derive(Debug)]
pub enum YamlValue {
    Null { rendered: String },
    Bool(bool),
    /// A number, by its decimal text.
    Number(String),
    String(String),
    Sequence { items: Vec<YamlValue>, rendered: String },
    /// Key-value entries in document order; lookups take the first match.
    Mapping { entries: Vec<(YamlValue, YamlValue)>, rendered: String },
    Tagged { value: Box<YamlValue>, rendered: String },
}

/// The node under any tags.
pub open spec fn untagged(v: YamlValue) -> YamlValue
    decreases v,
{
    match v {
        YamlValue::Tagged { value, .. } => untagged(*value),
        _ => v,
    }
}

/// The text of a string node (under any tags).
pub open spec fn as_str_of(v: YamlValue) -> Option<Seq<char>> {
    match untagged(v) {
        YamlValue::String(s) => Some(s@),
        _ => None,
    }
}

/// The entries of a mapping node (under any tags).
pub open spec fn as_mapping_of(v: YamlValue) -> Option<Seq<(YamlValue, YamlValue)>> {
    match untagged(v) {
        YamlValue::Mapping { entries, .. } => Some(entries@),
        _ => None,
    }
}

/// The items of a sequence node (under any tags).
pub open spec fn as_sequence_of(v: YamlValue) -> Option<Seq<YamlValue>> {
    match untagged(v) {
        YamlValue::Sequence { items, .. } => Some(items@),
        _ => None,
    }
}

/// The value of a boolean node (under any tags).
pub open spec fn as_bool_of(v: YamlValue) -> Option<bool> {
    match untagged(v) {
        YamlValue::Bool(b) => Some(b),
        _ => None,
    }
}

/// A key that equals the plain (untagged) string `key`.
pub open spec fn key_is(k: YamlValue, key: Seq<char>) -> bool {
    match k {
        YamlValue::String(s) => s@ == key,
        _ => false,
    }
}

/// The value of the first entry whose key is the string `key`.
pub open spec fn map_get(entries: Seq<(YamlValue, YamlValue)>, key: Seq<char>) -> Option<YamlValue>
    decreases entries.len(),
{
    if entries.len() == 0 {
        None
    } else if key_is(entries[0].0, key) {
        Some(entries[0].1)
    } else {
        map_get(entries.drop_first(), key)
    }
}

/// The text of the string value under `key`.
pub open spec fn get_str_of(entries: Seq<(YamlValue, YamlValue)>, key: Seq<char>) -> Option<Seq<char>> {
    match map_get(entries, key) {
        Some(v) => as_str_of(v),
        None => None,
    }
}

/// The texts of the string items, in order; other items are skipped.
pub open spec fn strs_of(items: Seq<YamlValue>) -> Seq<Seq<char>>
    decreases items.len(),
{
    if items.len() == 0 {
        Seq::<Seq<char>>::empty()
    } else {
        match as_str_of(items.last()) {
            Some(s) => strs_of(items.drop_last()).push(s),
            None => strs_of(items.drop_last()),
        }
    }
}

/// The string items of the sequence under `key`; empty without one.
pub open spec fn get_str_list_of(entries: Seq<(YamlValue, YamlValue)>, key: Seq<char>) -> Seq<Seq<char>> {
    match map_get(entries, key) {
        Some(v) => match as_sequence_of(v) {
            Some(items) => strs_of(items),
            None => Seq::<Seq<char>>::empty(),
        },
        None => Seq::<Seq<char>>::empty(),
    }
}

/// How a node reads as a default value: strings as they are, numbers and
/// booleans as written, other nodes by their debug text.
pub open spec fn value_text(v: YamlValue) -> Seq<char> {
    match v {
        YamlValue::String(s) => s@,
        YamlValue::Number(n) => n@,
        YamlValue::Bool(b) => if b {
            "true"@
        } else {
            "false"@
        },
        YamlValue::Null { rendered } => rendered@,
        YamlValue::Sequence { rendered, .. } => rendered@,
        YamlValue::Mapping { rendered, .. } => rendered@,
        YamlValue::Tagged { rendered, .. } => rendered@,
    }
}

impl YamlValue {
    /// The node under any tags.
    pub fn untag(&self) -> (r: &YamlValue)
        ensures
            *r == untagged(*self),
        decreases self,
    {
        match self {
            YamlValue::Tagged { value, .. } => value.untag(),
            _ => self,
        }
    }

    /// The text of a string node.
    pub fn as_str(&self) -> (r: Option<&str>)
        ensures
            match r {
                Some(s) => as_str_of(*self) == Some(s@),
                None => as_str_of(*self) is None,
            },
    {
        match self.untag() {
            YamlValue::String(s) => Some(s.as_str()),
            _ => None,
        }
    }

    /// The entries of a mapping node.
    pub fn as_mapping(&self) -> (r: Option<&Vec<(YamlValue, YamlValue)>>)
        ensures
            match r {
                Some(m) => as_mapping_of(*self) == Some(m@),
                None => as_mapping_of(*self) is None,
            },
    {
        match self.untag() {
            YamlValue::Mapping { entries, .. } => Some(entries),
            _ => None,
        }
    }

    /// The items of a sequence node.
    pub fn as_sequence(&self) -> (r: Option<&Vec<YamlValue>>)
        ensures
            match r {
                Some(s) => as_sequence_of(*self) == Some(s@),
                None => as_sequence_of(*self) is None,
            },
    {
        match self.untag() {
            YamlValue::Sequence { items, .. } => Some(items),
            _ => None,
        }
    }

    /// The value of a boolean node.
    pub fn as_bool(&self) -> (r: Option<bool>)
        ensures
            r == as_bool_of(*self),
    {
        match self.untag() {
            YamlValue::Bool(b) => Some(*b),
            _ => None,
        }
    }
}

/// The value under the string key `key`.
pub fn map_lookup<'a>(entries: &'a Vec<(YamlValue, YamlValue)>, key: &str) -> (r: Option<&'a YamlValue>)
    ensures
        match r {
            Some(v) => map_get(entries@, key@) == Some(*v),
            None => map_get(entries@, key@) is None,
        },
{
    let mut i: usize = 0;
    assert(entries@.skip(0) =~= entries@);
    while i < entries.len()
        invariant
            i <= entries.len(),
            map_get(entries@, key@) == map_get(entries@.skip(i as int), key@),
        decreases entries.len() - i,
    {
        let ghost rest = entries@.skip(i as int);
        assert(rest[0] == entries@[i as int]);
        let found = match &entries[i].0 {
            YamlValue::String(s) => crate::text::text_eq(s.as_str(), key),
            _ => false,
        };
        if found {
            return Some(&entries[i].1);
        }
        assert(rest.drop_first() =~= entries@.skip(i + 1));
        i = i + 1;
    }
    None
}

/// The text of the string value under `key`.
pub fn get_str(entries: &Vec<(YamlValue, YamlValue)>, key: &str) -> (r: Option<String>)
    ensures
        opt_text(r) == get_str_of(entries@, key@),
{
    match map_lookup(entries, key) {
        Some(v) => match v.as_str() {
            Some(s) => Some(s.to_string()),
            None => None,
        },
        None => None,
    }
}

/// The view of an optional string.
pub open spec fn opt_text(o: Option<String>) -> Option<Seq<char>> {
    match o {
        Some(s) => Some(s@),
        None => None,
    }
}

/// The texts of the string items of a sequence, in order.
pub fn strings_in(items: &Vec<YamlValue>) -> (r: Vec<String>)
    ensures
        views(r@) == strs_of(items@),
{
    let mut r: Vec<String> = Vec::new();
    let mut i: usize = 0;
    assert(items@.take(0) =~= Seq::<YamlValue>::empty());
    while i < items.len()
        invariant
            i <= items.len(),
            views(r@) == strs_of(items@.take(i as int)),
        decreases items.len() - i,
    {
        assert(items@.take(i + 1).drop_last() =~= items@.take(i as int));
        assert(items@.take(i + 1).last() == items@[i as int]);
        match items[i].as_str() {
            Some(s) => {
                let t = s.to_string();
                let ghost before = views(r@);
                r.push(t);
                assert(views(r@) =~= before.push(t@));
            },
            None => {},
        }
        i = i + 1;
    }
    assert(items@.take(items.len() as int) =~= items@);
    r
}

/// The string items of the sequence under `key`; empty without one.
pub fn get_str_list(entries: &Vec<(YamlValue, YamlValue)>, key: &str) -> (r: Vec<String>)
    ensures
        views(r@) == get_str_list_of(entries@, key@),
{
    match map_lookup(entries, key) {
        Some(v) => match v.as_sequence() {
            Some(items) => strings_in(items),
            None => Vec::new(),
        },
        None => Vec::new(),
    }
}

/// How a node reads as a default value.
pub fn yaml_value_to_string(v: &YamlValue) -> (r: String)
    ensures
        r@ == value_text(*v),
{
    match v {
        YamlValue::String(s) => s.clone(),
        YamlValue::Number(n) => n.clone(),
        YamlValue::Bool(b) => if *b {
            "true".to_string()
        } else {
            "false".to_string()
        },
        YamlValue::Null { rendered } => rendered.clone(),
        YamlValue::Sequence { rendered, .. } => rendered.clone(),
        YamlValue::Mapping { rendered, .. } => rendered.clone(),
        YamlValue::Tagged { rendered, .. } => rendered.clone(),
    }
}

} // verus!
