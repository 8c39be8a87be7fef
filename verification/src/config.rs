//! The layered configuration-value reader.
//!
//! Callers register candidate data files; the reader answers a key lookup
//! from the first file whose text parses in a given format and contains the
//! key at top level, trying every file as JSON, then every file as YAML,
//! then every file as TOML. Reading the files from disk is the caller's
//! affair: the lookup here works on the file texts.

use vstd::prelude::*;

verus! {

/// A number read from a configuration file. Integers keep their signedness;
/// any other number is kept as its decimal text, never as a reinterpreted
/// bit pattern.
#[derive(Debug, PartialEq, Eq)]
pub enum ConfigNumber {
    Int(i64),
    UInt(u64),
    Float(String),
}

impl ConfigNumber {
    /// Whether the number is an integer.
    pub fn is_int(&self) -> (r: bool)
        ensures
            r == (*self is Int || *self is UInt),
    {
        match self {
            ConfigNumber::Int(_) => true,
            ConfigNumber::UInt(_) => true,
            ConfigNumber::Float(_) => false,
        }
    }

    /// Whether the number is a non-integer.
    pub fn is_float(&self) -> (r: bool)
        ensures
            r == (*self is Float),
    {
        match self {
            ConfigNumber::Float(_) => true,
            _ => false,
        }
    }

    /// The integer value as a `u64`; a non-integer reads as 0.
    pub fn as_u64(&self) -> (r: u64)
        ensures
            r == (match *self {
                ConfigNumber::Int(i) => i as u64,
                ConfigNumber::UInt(u) => u,
                ConfigNumber::Float(_) => 0u64,
            }),
    {
        match self {
            ConfigNumber::Int(i) => #[verifier::truncate] (*i as u64),
            ConfigNumber::UInt(u) => *u,
            ConfigNumber::Float(_) => 0,
        }
    }

    /// The integer value as an `i64`; a non-integer reads as 0.
    pub fn as_i64(&self) -> (r: i64)
        ensures
            r == (match *self {
                ConfigNumber::Int(i) => i,
                ConfigNumber::UInt(u) => u as i64,
                ConfigNumber::Float(_) => 0i64,
            }),
    {
        match self {
            ConfigNumber::Int(i) => *i,
            ConfigNumber::UInt(u) => #[verifier::truncate] (*u as i64),
            ConfigNumber::Float(_) => 0,
        }
    }

    /// The integer value truncated to a `u32`; a non-integer reads as 0.
    pub fn as_u32(&self) -> (r: u32)
        ensures
            r == (match *self {
                ConfigNumber::Int(i) => i as u32,
                ConfigNumber::UInt(u) => u as u32,
                ConfigNumber::Float(_) => 0u32,
            }),
    {
        match self {
            ConfigNumber::Int(i) => #[verifier::truncate] (*i as u32),
            ConfigNumber::UInt(u) => #[verifier::truncate] (*u as u32),
            ConfigNumber::Float(_) => 0,
        }
    }

    /// The integer value truncated to an `i32`; a non-integer reads as 0.
    pub fn as_i32(&self) -> (r: i32)
        ensures
            r == (match *self {
                ConfigNumber::Int(i) => i as i32,
                ConfigNumber::UInt(u) => u as i32,
                ConfigNumber::Float(_) => 0i32,
            }),
    {
        match self {
            ConfigNumber::Int(i) => #[verifier::truncate] (*i as i32),
            ConfigNumber::UInt(u) => #[verifier::truncate] (*u as i32),
            ConfigNumber::Float(_) => 0,
        }
    }

    /// The integer value truncated to a `u16`; a non-integer reads as 0.
    pub fn as_u16(&self) -> (r: u16)
        ensures
            r == (match *self {
                ConfigNumber::Int(i) => i as u16,
                ConfigNumber::UInt(u) => u as u16,
                ConfigNumber::Float(_) => 0u16,
            }),
    {
        match self {
            ConfigNumber::Int(i) => #[verifier::truncate] (*i as u16),
            ConfigNumber::UInt(u) => #[verifier::truncate] (*u as u16),
            ConfigNumber::Float(_) => 0,
        }
    }

    /// The integer value truncated to an `i16`; a non-integer reads as 0.
    pub fn as_i16(&self) -> (r: i16)
        ensures
            r == (match *self {
                ConfigNumber::Int(i) => i as i16,
                ConfigNumber::UInt(u) => u as i16,
                ConfigNumber::Float(_) => 0i16,
            }),
    {
        match self {
            ConfigNumber::Int(i) => #[verifier::truncate] (*i as i16),
            ConfigNumber::UInt(u) => #[verifier::truncate] (*u as i16),
            ConfigNumber::Float(_) => 0,
        }
    }

    /// The integer value truncated to a `u8`; a non-integer reads as 0.
    pub fn as_u8(&self) -> (r: u8)
        ensures
            r == (match *self {
                ConfigNumber::Int(i) => i as u8,
                ConfigNumber::UInt(u) => u as u8,
                ConfigNumber::Float(_) => 0u8,
            }),
    {
        match self {
            ConfigNumber::Int(i) => #[verifier::truncate] (*i as u8),
            ConfigNumber::UInt(u) => #[verifier::truncate] (*u as u8),
            ConfigNumber::Float(_) => 0,
        }
    }

    /// The integer value truncated to an `i8`; a non-integer reads as 0.
    pub fn as_i8(&self) -> (r: i8)
        ensures
            r == (match *self {
                ConfigNumber::Int(i) => i as i8,
                ConfigNumber::UInt(u) => u as i8,
                ConfigNumber::Float(_) => 0i8,
            }),
    {
        match self {
            ConfigNumber::Int(i) => #[verifier::truncate] (*i as i8),
            ConfigNumber::UInt(u) => #[verifier::truncate] (*u as i8),
            ConfigNumber::Float(_) => 0,
        }
    }
}

/// A configuration value: the closed sum of everything the three formats can
/// hand back. Maps keep the order the parser handed their entries in.
#[derive(Debug, PartialEq, Eq)]
pub enum ConfigValue {
    Null,
    Bool(bool),
    Number(ConfigNumber),
    Str(String),
    Array(Vec<ConfigValue>),
    Object(Vec<(String, ConfigValue)>),
}

impl ConfigValue {
    /// Whether this is the null value.
    pub fn is_null(&self) -> (r: bool)
        ensures
            r == (*self is Null),
    {
        match self {
            ConfigValue::Null => true,
            _ => false,
        }
    }
}

/// The registered candidate data files, in registration order.
#[derive(Debug)]
pub struct DataFiles {
    files: Vec<String>,
}

impl View for DataFiles {
    type V = Seq<String>;

    closed spec fn view(&self) -> Seq<String> {
        self.files@
    }
}

impl DataFiles {
    /// No files registered yet.
    pub fn new() -> (r: DataFiles)
        ensures
            r@ =~= Seq::<String>::empty(),
    {
        DataFiles { files: Vec::new() }
    }

    /// Register `name` as a candidate data file, after those already there.
    pub fn register_db_file(&mut self, name: &String)
        ensures
            final(self)@ == old(self)@.push(*name),
    {
        self.files.push(name.clone());
    }

    /// The registered file names, in registration order.
    pub fn files(&self) -> (r: &Vec<String>)
        ensures
            r@ == self@,
    {
        &self.files
    }
}

/// What looking `key` up in `text` read as JSON returns: the parse and the
/// lookup depend on the text and the key alone, so the result bears a name
/// the contracts below share.
pub uninterp spec fn json_db_lookup(text: Seq<char>, key: Seq<char>) -> Option<ConfigValue>;

/// What looking `key` up in `text` read as YAML returns.
pub uninterp spec fn yaml_db_lookup(text: Seq<char>, key: Seq<char>) -> Option<ConfigValue>;

/// What looking `key` up in `text` read as TOML returns.
pub uninterp spec fn toml_db_lookup(text: Seq<char>, key: Seq<char>) -> Option<ConfigValue>;

/// serde_json's value type, declared so the converters below may name it.
#[verifier::external_type_specification]
#[verifier::external_body]
pub struct ExJsonValue(serde_json::Value);

/// serde_json's number type, declared so the converters below may name it.
#[verifier::external_type_specification]
#[verifier::external_body]
pub struct ExJsonNumber(serde_json::Number);

/// serde_yaml's number type, declared so the converters below may name it.
#[verifier::external_type_specification]
#[verifier::external_body]
pub struct ExYamlNumber(serde_yaml::Number);

/// serde_yaml's value type, declared so the converters below may name it.
#[verifier::external_type_specification]
#[verifier::external_body]
pub struct ExYamlValue(serde_yaml::Value);

/// toml's value type, declared so the converters below may name it.
#[verifier::external_type_specification]
#[verifier::external_body]
pub struct ExTomlValue(toml::Value);

/// Relies on serde_json::Number's integer accessors: an integer stays an
/// integer of the matching signedness; any other number keeps its decimal
/// text.
#[verifier::external_body]
fn from_json_num(n: serde_json::Number) -> (r: ConfigValue) {
    match (n.as_i64(), n.as_u64()) {
        (Some(i), _) => ConfigValue::Number(ConfigNumber::Int(i)),
        (_, Some(u)) => ConfigValue::Number(ConfigNumber::UInt(u)),
        _ => ConfigValue::Number(ConfigNumber::Float(n.to_string())),
    }
}

/// Relies on serde_json::Value's shape: one arm per variant, each moved into
/// the library's value type.
#[verifier::external_body]
fn from_json(v: serde_json::Value) -> (r: ConfigValue) {
    match v {
        serde_json::Value::Null => ConfigValue::Null,
        serde_json::Value::Bool(b) => ConfigValue::Bool(b),
        serde_json::Value::Number(n) => from_json_num(n),
        serde_json::Value::String(s) => ConfigValue::Str(s),
        serde_json::Value::Array(a) => ConfigValue::Array(a.into_iter().map(from_json).collect()),
        serde_json::Value::Object(m) => ConfigValue::Object(
            m.into_iter().map(|(k, x)| (k, from_json(x))).collect(),
        ),
    }
}

/// Relies on serde_json::from_str and serde_json::Value::get: parses `text`
/// as JSON and hands back the top-level entry at `key`, converted; `None`
/// when the text does not parse or the key is absent. The answer depends on
/// the text and the key alone.
#[verifier::external_body]
fn json_lookup(text: &String, key: &str) -> (r: Option<ConfigValue>)
    ensures
        r == json_db_lookup(text@, key@),
{
    match serde_json::from_str::<serde_json::Value>(text.as_str()) {
        Ok(v) => match v.get(key) {
            Some(x) => Some(from_json(x.clone())),
            None => None,
        },
        Err(_) => None,
    }
}

/// Relies on serde_yaml::Value's shape: a mapping key that is not a string
/// is kept as its debug text.
#[verifier::external_body]
fn yaml_key(k: serde_yaml::Value) -> (r: String) {
    match k {
        serde_yaml::Value::String(s) => s,
        other => format!("{:?}", other),
    }
}

/// Relies on serde_yaml::Number's integer accessors: an integer stays an
/// integer of the matching signedness; any other number keeps its decimal
/// text.
#[verifier::external_body]
fn from_yaml_num(n: serde_yaml::Number) -> (r: ConfigValue) {
    match (n.as_i64(), n.as_u64()) {
        (Some(i), _) => ConfigValue::Number(ConfigNumber::Int(i)),
        (_, Some(u)) => ConfigValue::Number(ConfigNumber::UInt(u)),
        _ => ConfigValue::Number(ConfigNumber::Float(n.to_string())),
    }
}

/// Relies on serde_yaml::Value's shape: one arm per variant, each moved into
/// the library's value type; a tagged value reads as the value under the tag.
#[verifier::external_body]
fn from_yaml(v: serde_yaml::Value) -> (r: ConfigValue) {
    match v {
        serde_yaml::Value::Null => ConfigValue::Null,
        serde_yaml::Value::Bool(b) => ConfigValue::Bool(b),
        serde_yaml::Value::Number(n) => from_yaml_num(n),
        serde_yaml::Value::String(s) => ConfigValue::Str(s),
        serde_yaml::Value::Sequence(a) => ConfigValue::Array(a.into_iter().map(from_yaml).collect()),
        serde_yaml::Value::Mapping(m) => ConfigValue::Object(
            m.into_iter().map(|(k, x)| (yaml_key(k), from_yaml(x))).collect(),
        ),
        serde_yaml::Value::Tagged(t) => from_yaml(t.value),
    }
}

/// Relies on serde_yaml::from_str and serde_yaml::Value::get: parses `text`
/// as YAML and hands back the top-level entry at `key`, converted; `None`
/// when the text does not parse or the key is absent. The answer depends on
/// the text and the key alone.
#[verifier::external_body]
fn yaml_lookup(text: &String, key: &str) -> (r: Option<ConfigValue>)
    ensures
        r == yaml_db_lookup(text@, key@),
{
    match serde_yaml::from_str::<serde_yaml::Value>(text.as_str()) {
        Ok(v) => match v.get(key) {
            Some(x) => Some(from_yaml(x.clone())),
            None => None,
        },
        Err(_) => None,
    }
}

/// Relies on toml::Value's shape: one arm per variant, each moved into the
/// library's value type; a datetime reads as its text.
#[verifier::external_body]
fn from_toml(v: toml::Value) -> (r: ConfigValue) {
    match v {
        toml::Value::String(s) => ConfigValue::Str(s),
        toml::Value::Integer(i) => ConfigValue::Number(ConfigNumber::Int(i)),
        toml::Value::Float(x) => ConfigValue::Number(ConfigNumber::Float(format!("{}", x))),
        toml::Value::Boolean(b) => ConfigValue::Bool(b),
        toml::Value::Datetime(d) => ConfigValue::Str(format!("{}", d)),
        toml::Value::Array(a) => ConfigValue::Array(a.into_iter().map(from_toml).collect()),
        toml::Value::Table(t) => ConfigValue::Object(
            t.into_iter().map(|(k, x)| (k, from_toml(x))).collect(),
        ),
    }
}

/// Relies on toml::from_str and toml::Value::get: parses `text` as a TOML
/// document and hands back the top-level entry at `key`, converted; `None`
/// when the text does not parse or the key is absent. The answer depends on
/// the text and the key alone.
#[verifier::external_body]
fn toml_lookup(text: &String, key: &str) -> (r: Option<ConfigValue>)
    ensures
        r == toml_db_lookup(text@, key@),
{
    match toml::from_str::<toml::Value>(text.as_str()) {
        Ok(v) => match v.get(key) {
            Some(x) => Some(from_toml(x.clone())),
            None => None,
        },
        Err(_) => None,
    }
}

/// The answer of one format's pass over the file texts: the first text where
/// the format's lookup finds the key decides; null when none does.
pub open spec fn json_pass_model(texts: Seq<String>, key: Seq<char>) -> ConfigValue
    decreases texts.len(),
{
    if texts.len() == 0 {
        ConfigValue::Null
    } else {
        match json_db_lookup(texts[0]@, key) {
            Option::Some(v) => v,
            Option::None => json_pass_model(texts.drop_first(), key),
        }
    }
}

/// The YAML pass, as [`json_pass_model`] for YAML.
pub open spec fn yaml_pass_model(texts: Seq<String>, key: Seq<char>) -> ConfigValue
    decreases texts.len(),
{
    if texts.len() == 0 {
        ConfigValue::Null
    } else {
        match yaml_db_lookup(texts[0]@, key) {
            Option::Some(v) => v,
            Option::None => yaml_pass_model(texts.drop_first(), key),
        }
    }
}

/// The TOML pass, as [`json_pass_model`] for TOML.
pub open spec fn toml_pass_model(texts: Seq<String>, key: Seq<char>) -> ConfigValue
    decreases texts.len(),
{
    if texts.len() == 0 {
        ConfigValue::Null
    } else {
        match toml_db_lookup(texts[0]@, key) {
            Option::Some(v) => v,
            Option::None => toml_pass_model(texts.drop_first(), key),
        }
    }
}

/// The layered answer: the JSON pass decides when it finds anything but
/// null, then the YAML pass, then the TOML pass, else null.
pub open spec fn db_lookup_model(texts: Seq<String>, key: Seq<char>) -> ConfigValue {
    if !(json_pass_model(texts, key) is Null) {
        json_pass_model(texts, key)
    } else if !(yaml_pass_model(texts, key) is Null) {
        yaml_pass_model(texts, key)
    } else if !(toml_pass_model(texts, key) is Null) {
        toml_pass_model(texts, key)
    } else {
        ConfigValue::Null
    }
}

fn json_pass(texts: &Vec<String>, key: &str) -> (r: ConfigValue)
    ensures
        r == json_pass_model(texts@, key@),
{
    let n = texts.len();
    let mut i: usize = 0;
    proof {
        assert(texts@.skip(0) =~= texts@);
    }
    while i < n
        invariant
            n == texts@.len(),
            i <= n,
            json_pass_model(texts@, key@) == json_pass_model(texts@.skip(i as int), key@),
        decreases n - i,
    {
        proof {
            assert(texts@.skip(i as int)[0] == texts@[i as int]);
            assert(texts@.skip(i as int).drop_first() =~= texts@.skip(i + 1));
        }
        match json_lookup(&texts[i], key) {
            Option::Some(v) => {
                return v;
            },
            Option::None => {},
        }
        i += 1;
    }
    proof {
        assert(texts@.skip(n as int) =~= Seq::<String>::empty());
    }
    ConfigValue::Null
}

fn yaml_pass(texts: &Vec<String>, key: &str) -> (r: ConfigValue)
    ensures
        r == yaml_pass_model(texts@, key@),
{
    let n = texts.len();
    let mut i: usize = 0;
    proof {
        assert(texts@.skip(0) =~= texts@);
    }
    while i < n
        invariant
            n == texts@.len(),
            i <= n,
            yaml_pass_model(texts@, key@) == yaml_pass_model(texts@.skip(i as int), key@),
        decreases n - i,
    {
        proof {
            assert(texts@.skip(i as int)[0] == texts@[i as int]);
            assert(texts@.skip(i as int).drop_first() =~= texts@.skip(i + 1));
        }
        match yaml_lookup(&texts[i], key) {
            Option::Some(v) => {
                return v;
            },
            Option::None => {},
        }
        i += 1;
    }
    proof {
        assert(texts@.skip(n as int) =~= Seq::<String>::empty());
    }
    ConfigValue::Null
}

fn toml_pass(texts: &Vec<String>, key: &str) -> (r: ConfigValue)
    ensures
        r == toml_pass_model(texts@, key@),
{
    let n = texts.len();
    let mut i: usize = 0;
    proof {
        assert(texts@.skip(0) =~= texts@);
    }
    while i < n
        invariant
            n == texts@.len(),
            i <= n,
            toml_pass_model(texts@, key@) == toml_pass_model(texts@.skip(i as int), key@),
        decreases n - i,
    {
        proof {
            assert(texts@.skip(i as int)[0] == texts@[i as int]);
            assert(texts@.skip(i as int).drop_first() =~= texts@.skip(i + 1));
        }
        match toml_lookup(&texts[i], key) {
            Option::Some(v) => {
                return v;
            },
            Option::None => {},
        }
        i += 1;
    }
    proof {
        assert(texts@.skip(n as int) =~= Seq::<String>::empty());
    }
    ConfigValue::Null
}

/// Look `name` up across the file texts, layered by format: every text is
/// tried as JSON, then every text as YAML, then every text as TOML; within a
/// format the first text that parses and holds the key at top level decides.
/// Null when no format finds anything but null.
pub fn get_database_entry(texts: &Vec<String>, name: &str) -> (r: ConfigValue)
    ensures
        r == db_lookup_model(texts@, name@),
{
    let r = json_pass(texts, name);
    if !r.is_null() {
        return r;
    }
    let r = yaml_pass(texts, name);
    if !r.is_null() {
        return r;
    }
    let r = toml_pass(texts, name);
    if !r.is_null() {
        return r;
    }
    ConfigValue::Null
}

} // verus!
