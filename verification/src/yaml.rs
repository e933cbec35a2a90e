//! YAML documents as plain values, their mathematical model, and the calls
//! into `yaml_rust2` that read and write YAML text.
use vstd::prelude::*;
use vstd::string::*;

verus! {

/// The mathematical model of a YAML node.
pub enum YamlModel {
    Real(Seq<char>),
    Integer(int),
    Str(Seq<char>),
    Boolean(bool),
    Array(Seq<YamlModel>),
    Hash(Seq<(YamlModel, YamlModel)>),
    Alias(nat),
    Null,
    BadValue,
}

/// A YAML node, with the same variants as `yaml_rust2::Yaml`; a mapping keeps
/// its entries in their order.
#[derive(Debug, PartialEq)]
pub enum YamlValue {
    Real(String),
    Integer(i64),
    Str(String),
    Boolean(bool),
    Array(Vec<YamlValue>),
    Hash(Vec<(YamlValue, YamlValue)>),
    Alias(usize),
    Null,
    BadValue,
}

/// The model of a node.
pub open spec fn model_of(node: YamlValue) -> YamlModel
    decreases node,
{
    match node {
        YamlValue::Real(s) => YamlModel::Real(s@),
        YamlValue::Integer(i) => YamlModel::Integer(i as int),
        YamlValue::Str(s) => YamlModel::Str(s@),
        YamlValue::Boolean(b) => YamlModel::Boolean(b),
        YamlValue::Array(v) => YamlModel::Array(
            Seq::new(
                v@.len(),
                |i: int|
                    {
                        if 0 <= i < v@.len() {
                            model_of(v@[i])
                        } else {
                            YamlModel::BadValue
                        }
                    },
            ),
        ),
        YamlValue::Hash(v) => YamlModel::Hash(
            Seq::new(
                v@.len(),
                |i: int|
                    {
                        if 0 <= i < v@.len() {
                            (model_of(v@[i].0), model_of(v@[i].1))
                        } else {
                            (YamlModel::BadValue, YamlModel::BadValue)
                        }
                    },
            ),
        ),
        YamlValue::Alias(n) => YamlModel::Alias(n as nat),
        YamlValue::Null => YamlModel::Null,
        YamlValue::BadValue => YamlModel::BadValue,
    }
}

impl View for YamlValue {
    type V = YamlModel;

    open spec fn view(&self) -> YamlModel {
        model_of(*self)
    }
}

/// The models of a sequence of nodes.
pub open spec fn models(v: Seq<YamlValue>) -> Seq<YamlModel> {
    Seq::new(v.len(), |i: int| v[i]@)
}

/// The models of the entries of a mapping.
pub open spec fn entry_models(v: Seq<(YamlValue, YamlValue)>) -> Seq<(YamlModel, YamlModel)> {
    Seq::new(v.len(), |i: int| (v[i].0@, v[i].1@))
}

/// The position of the first entry whose key is the string `key`.
pub open spec fn key_index(entries: Seq<(YamlModel, YamlModel)>, key: Seq<char>) -> Option<int>
    decreases entries.len(),
{
    if entries.len() == 0 {
        None
    } else if entries[0].0 == YamlModel::Str(key) {
        Some(0)
    } else {
        match key_index(entries.drop_first(), key) {
            Some(i) => Some(i + 1),
            None => None,
        }
    }
}

/// The value of the first entry whose key is the string `key`, or `BadValue`.
pub open spec fn lookup(entries: Seq<(YamlModel, YamlModel)>, key: Seq<char>) -> YamlModel {
    match key_index(entries, key) {
        Some(i) => entries[i].1,
        None => YamlModel::BadValue,
    }
}

/// `key_index` finds the first entry with the key, and only where there is one.
pub proof fn lemma_key_index(entries: Seq<(YamlModel, YamlModel)>, key: Seq<char>, i: int)
    requires
        0 <= i <= entries.len(),
        forall|j: int| 0 <= j < i ==> #[trigger] entries[j].0 != YamlModel::Str(key),
    ensures
        i < entries.len() && entries[i].0 == YamlModel::Str(key) ==> key_index(entries, key)
            == Some(i),
        i == entries.len() ==> key_index(entries, key) is None,
    decreases i,
{
    if i > 0 {
        let rest = entries.drop_first();
        assert forall|j: int| 0 <= j < i - 1 implies #[trigger] rest[j].0 != YamlModel::Str(key) by {
            assert(rest[j] == entries[j + 1]);
        }
        lemma_key_index(rest, key, i - 1);
    }
}

/// `node[key]`: the value under the string `key` of a mapping; `BadValue` when
/// `node` is no mapping or has no such key.
pub open spec fn get(node: YamlModel, key: Seq<char>) -> YamlModel {
    match node {
        YamlModel::Hash(entries) => lookup(entries, key),
        _ => YamlModel::BadValue,
    }
}

/// The string a node holds, if it is a string.
pub open spec fn text(node: YamlModel) -> Option<Seq<char>> {
    match node {
        YamlModel::Str(s) => Some(s),
        _ => None,
    }
}

/// The boolean a node holds, if it is a boolean.
pub open spec fn flag(node: YamlModel) -> Option<bool> {
    match node {
        YamlModel::Boolean(b) => Some(b),
        _ => None,
    }
}

/// What `yaml_rust2::YamlLoader::load_from_str` gives for a text: its documents,
/// or the message of the scan error.
pub uninterp spec fn yaml_load(source: Seq<char>) -> Result<Seq<YamlModel>, Seq<char>>;

/// What `yaml_rust2::YamlEmitter::dump` writes for a document, or the message of
/// its error.
pub uninterp spec fn yaml_emit(doc: YamlModel) -> Result<Seq<char>, Seq<char>>;

#[verifier::external_type_specification]
#[verifier::external_body]
pub struct ExYaml(yaml_rust2::Yaml);

/// Turns a `yaml_rust2::Yaml` into the node with the same variant and contents.
/// It is the conversion half of `load_documents`, which states what results.
#[verifier::external_body]
fn from_outside(node: yaml_rust2::Yaml) -> YamlValue {
    match node {
        yaml_rust2::Yaml::Real(s) => YamlValue::Real(s),
        yaml_rust2::Yaml::Integer(i) => YamlValue::Integer(i),
        yaml_rust2::Yaml::String(s) => YamlValue::Str(s),
        yaml_rust2::Yaml::Boolean(b) => YamlValue::Boolean(b),
        yaml_rust2::Yaml::Array(v) => YamlValue::Array(v.into_iter().map(from_outside).collect()),
        yaml_rust2::Yaml::Hash(h) => YamlValue::Hash(
            h.into_iter().map(|(k, x)| (from_outside(k), from_outside(x))).collect(),
        ),
        yaml_rust2::Yaml::Alias(n) => YamlValue::Alias(n),
        yaml_rust2::Yaml::Null => YamlValue::Null,
        yaml_rust2::Yaml::BadValue => YamlValue::BadValue,
    }
}

/// Turns a node into the `yaml_rust2::Yaml` with the same variant and contents.
/// It is the conversion half of `dump_document`, which states what results.
#[verifier::external_body]
fn to_outside(node: &YamlValue) -> yaml_rust2::Yaml {
    match node {
        YamlValue::Real(s) => yaml_rust2::Yaml::Real(s.clone()),
        YamlValue::Integer(i) => yaml_rust2::Yaml::Integer(*i),
        YamlValue::Str(s) => yaml_rust2::Yaml::String(s.clone()),
        YamlValue::Boolean(b) => yaml_rust2::Yaml::Boolean(*b),
        YamlValue::Array(v) => yaml_rust2::Yaml::Array(v.iter().map(to_outside).collect()),
        YamlValue::Hash(h) => yaml_rust2::Yaml::Hash(
            h.iter().map(|(k, x)| (to_outside(k), to_outside(x))).collect(),
        ),
        YamlValue::Alias(n) => yaml_rust2::Yaml::Alias(*n),
        YamlValue::Null => yaml_rust2::Yaml::Null,
        YamlValue::BadValue => yaml_rust2::Yaml::BadValue,
    }
}

/// Parses YAML text with `yaml_rust2::YamlLoader::load_from_str`.
/// Claims that the documents (or the error's `Display` text) are `yaml_load`
/// of the text; what that is, only `yaml_rust2` decides.
#[verifier::external_body]
pub(crate) fn load_documents(source: &str) -> (r: Result<Vec<YamlValue>, String>)
    ensures
        match (r, yaml_load(source@)) {
            (Ok(docs), Ok(m)) => models(docs@) == m,
            (Err(e), Err(m)) => e@ == m,
            _ => false,
        },
{
    match yaml_rust2::YamlLoader::load_from_str(source) {
        Ok(docs) => Ok(docs.into_iter().map(from_outside).collect()),
        Err(e) => Err(e.to_string()),
    }
}

/// Writes a document as YAML text with `yaml_rust2::YamlEmitter::dump` into a
/// `String`. Claims that the text (or the error's `Display` text) is
/// `yaml_emit` of the document; what that is, only `yaml_rust2` decides.
#[verifier::external_body]
pub(crate) fn dump_document(doc: &YamlValue) -> (r: Result<String, String>)
    ensures
        match (r, yaml_emit(doc@)) {
            (Ok(t), Ok(m)) => t@ == m,
            (Err(e), Err(m)) => e@ == m,
            _ => false,
        },
{
    let mut out = String::new();
    match yaml_rust2::YamlEmitter::new(&mut out).dump(&to_outside(doc)) {
        Ok(()) => Ok(out),
        Err(e) => Err(e.to_string()),
    }
}

/// The position of the first entry of `entries` whose key is the string `key`.
pub fn key_position(entries: &Vec<(YamlValue, YamlValue)>, key: &str) -> (r: Option<usize>)
    ensures
        match r {
            Some(i) => i < entries.len() && key_index(entry_models(entries@), key@) == Some(
                i as int,
            ),
            None => key_index(entry_models(entries@), key@) is None,
        },
{
    let wanted = key.to_owned();
    let ghost m = entry_models(entries@);
    let mut i: usize = 0;
    while i < entries.len()
        invariant
            i <= entries.len(),
            m == entry_models(entries@),
            wanted@ == key@,
            forall|j: int| 0 <= j < i ==> #[trigger] m[j].0 != YamlModel::Str(key@),
        decreases entries.len() - i,
    {
        let is_key = match &entries[i].0 {
            YamlValue::Str(s) => *s == wanted,
            _ => false,
        };
        assert(m[i as int] == (entries@[i as int].0@, entries@[i as int].1@));
        assert(is_key <==> m[i as int].0 == YamlModel::Str(key@));
        if is_key {
            proof {
                lemma_key_index(m, key@, i as int);
            }
            return Some(i);
        }
        i = i + 1;
    }
    proof {
        lemma_key_index(m, key@, i as int);
    }
    None
}

impl YamlValue {
    /// `self[key]`: the node under the string `key` of a mapping, or `None`
    /// where `yaml_rust2` gives `BadValue` for want of one.
    pub fn get(&self, key: &str) -> (r: Option<&YamlValue>)
        ensures
            get(self@, key@) == match r {
                Some(x) => x@,
                None => YamlModel::BadValue,
            },
    {
        match self {
            YamlValue::Hash(entries) => {
                assert(self@->Hash_0 =~= entry_models(entries@));
                match key_position(entries, key) {
                    Some(i) => {
                        assert(entry_models(entries@)[i as int].1 == entries@[i as int].1@);
                        Some(&entries[i].1)
                    },
                    None => None,
                }
            },
            _ => None,
        }
    }

    /// The string this node holds, if it is a string.
    pub fn as_str(&self) -> (r: Option<&String>)
        ensures
            match r {
                Some(s) => text(self@) == Some(s@),
                None => text(self@) is None,
            },
    {
        match self {
            YamlValue::Str(s) => Some(s),
            _ => None,
        }
    }

    /// The boolean this node holds, if it is a boolean.
    pub fn as_bool(&self) -> (r: Option<bool>)
        ensures
            r == flag(self@),
    {
        match self {
            YamlValue::Boolean(b) => Some(*b),
            _ => None,
        }
    }

    /// The nodes of this sequence, if it is a sequence.
    pub fn as_vec(&self) -> (r: Option<&Vec<YamlValue>>)
        ensures
            match r {
                Some(v) => self@ == YamlModel::Array(models(v@)),
                None => !(self@ is Array),
            },
    {
        match self {
            YamlValue::Array(v) => {
                assert(self@->Array_0 =~= models(v@));
                Some(v)
            },
            _ => None,
        }
    }
}

} // verus!
