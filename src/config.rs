//! The `rinf` section of a project's `pubspec.yaml`: which keys it may hold,
//! and the defaults for those it leaves out.

use vstd::prelude::*;
use serde_yml::{Mapping, Value};
use crate::text::is_word;

verus! {

#[verifier::external_type_specification]
#[verifier::external_body]
pub struct ExMapping(Mapping);

#[verifier::external_type_specification]
#[verifier::external_body]
pub struct ExYamlError(serde_yml::Error);

/// The keys of a YAML mapping, in the order they were written.
pub uninterp spec fn yaml_keys(m: Mapping) -> Seq<Seq<char>>;

/// The entries of a YAML mapping whose value is a string.
pub uninterp spec fn yaml_texts(m: Mapping) -> Map<Seq<char>, Seq<char>>;

/// The entries of a YAML mapping whose value is a boolean.
pub uninterp spec fn yaml_flags(m: Mapping) -> Map<Seq<char>, bool>;

/// The entries of a YAML mapping whose value is itself a mapping.
pub uninterp spec fn yaml_tables(m: Mapping) -> Map<Seq<char>, Mapping>;

/// Relies on `Mapping::keys`: every key, in insertion order.
#[verifier::external_body]
fn mapping_keys(m: &Mapping) -> (r: Vec<String>)
    ensures
        r@.map_values(|k: String| k@) == yaml_keys(*m),
{
    m.keys().cloned().collect()
}

/// Relies on `Mapping::get` and `Value::as_str`: the value under `key`
/// where it is a string.
#[verifier::external_body]
fn text_entry(m: &Mapping, key: &str) -> (r: Option<String>)
    ensures
        match r {
            Some(v) => yaml_texts(*m).contains_key(key@) && yaml_texts(*m)[key@] == v@,
            None => !yaml_texts(*m).contains_key(key@),
        },
{
    m.get(key).and_then(Value::as_str).map(String::from)
}

/// Relies on `Mapping::get` and `Value::as_bool`: the value under `key`
/// where it is a boolean.
#[verifier::external_body]
fn flag_entry(m: &Mapping, key: &str) -> (r: Option<bool>)
    ensures
        match r {
            Some(v) => yaml_flags(*m).contains_key(key@) && yaml_flags(*m)[key@] == v,
            None => !yaml_flags(*m).contains_key(key@),
        },
{
    m.get(key).and_then(Value::as_bool)
}

/// Relies on `Mapping::get` and `Value::as_mapping`: the value under `key`
/// where it is a mapping.
#[verifier::external_body]
fn table_entry(m: &Mapping, key: &str) -> (r: Option<Mapping>)
    ensures
        match r {
            Some(v) => yaml_tables(*m).contains_key(key@) && yaml_tables(*m)[key@] == v,
            None => !yaml_tables(*m).contains_key(key@),
        },
{
    m.get(key).and_then(Value::as_mapping).cloned()
}

/// Whether a text parses as a YAML document.
pub uninterp spec fn yaml_parses(text: Seq<char>) -> bool;

/// The top-level mapping of a YAML document; `None` where the document is
/// not a mapping.
pub uninterp spec fn yaml_root(text: Seq<char>) -> Option<Mapping>;

/// Relies on `serde_yml::from_str` into a `Value`, then `Value::as_mapping`:
/// the document's top-level mapping, `None` where the document is not a
/// mapping; both depend on the text alone.
#[verifier::external_body]
fn parse_document(content: &str) -> (r: Result<Option<Mapping>, serde_yml::Error>)
    ensures
        r is Ok == yaml_parses(content@),
        r matches Ok(d) ==> d == yaml_root(content@),
{
    serde_yml::from_str::<Value>(content).map(|v| v.as_mapping().cloned())
}

pub const MESSAGE_KEY_LIST: &'static str = "input_dir, rust_output_dir, dart_output_dir, rust_serde";

pub const CONFIG_KEY_LIST: &'static str = "message";

pub const DEFAULT_INPUT_DIR: &'static str = "messages/";

pub const DEFAULT_RUST_OUTPUT_DIR: &'static str = "native/hub/src/messages/";

pub const DEFAULT_DART_OUTPUT_DIR: &'static str = "lib/messages/";

/// Why the configuration could not be loaded.
#[derive(Debug)]
pub enum RinfCommandError {
    /// A file could not be read.
    IoError(String),
    /// The YAML text did not parse.
    YamlError(serde_yml::Error),
    /// A key that the section does not know, and the keys it does know.
    UnknownKey(String, String),
    /// The current directory is not the root of a Flutter app.
    NotFlutterApp,
    /// The document is not a mapping.
    Other,
}

/// Where message code is read from and written to.
#[derive(Debug)]
pub struct RinfConfigMessage {
    pub input_dir: String,
    pub rust_output_dir: String,
    pub dart_output_dir: String,
    pub rust_serde: bool,
}

/// The `rinf` section of `pubspec.yaml`.
#[derive(Debug)]
pub struct RinfConfig {
    pub message: RinfConfigMessage,
}

pub struct MessageView {
    pub input_dir: Seq<char>,
    pub rust_output_dir: Seq<char>,
    pub dart_output_dir: Seq<char>,
    pub rust_serde: bool,
}

impl View for RinfConfigMessage {
    type V = MessageView;

    open spec fn view(&self) -> MessageView {
        MessageView {
            input_dir: self.input_dir@,
            rust_output_dir: self.rust_output_dir@,
            dart_output_dir: self.dart_output_dir@,
            rust_serde: self.rust_serde,
        }
    }
}

pub open spec fn default_message() -> MessageView {
    MessageView {
        input_dir: DEFAULT_INPUT_DIR@,
        rust_output_dir: DEFAULT_RUST_OUTPUT_DIR@,
        dart_output_dir: DEFAULT_DART_OUTPUT_DIR@,
        rust_serde: false,
    }
}

pub open spec fn text_or(texts: Map<Seq<char>, Seq<char>>, key: Seq<char>, default: Seq<char>) -> Seq<char> {
    if texts.contains_key(key) {
        texts[key]
    } else {
        default
    }
}

/// The message settings that a mapping gives, each defaulted where absent
/// or of another type.
pub open spec fn message_from(m: Mapping) -> MessageView {
    MessageView {
        input_dir: text_or(yaml_texts(m), "input_dir"@, DEFAULT_INPUT_DIR@),
        rust_output_dir: text_or(yaml_texts(m), "rust_output_dir"@, DEFAULT_RUST_OUTPUT_DIR@),
        dart_output_dir: text_or(yaml_texts(m), "dart_output_dir"@, DEFAULT_DART_OUTPUT_DIR@),
        rust_serde: if yaml_flags(m).contains_key("rust_serde"@) {
            yaml_flags(m)["rust_serde"@]
        } else {
            false
        },
    }
}

pub open spec fn message_keys() -> Set<Seq<char>> {
    set!["input_dir"@, "rust_output_dir"@, "dart_output_dir"@, "rust_serde"@]
}

pub open spec fn config_keys() -> Set<Seq<char>> {
    set!["message"@]
}

/// The first key that `allowed` does not hold.
pub open spec fn first_outside(keys: Seq<Seq<char>>, allowed: Set<Seq<char>>) -> Option<Seq<char>>
    decreases keys.len(),
{
    if keys.len() == 0 {
        None
    } else if !allowed.contains(keys[0]) {
        Some(keys[0])
    } else {
        first_outside(keys.subrange(1, keys.len() as int), allowed)
    }
}

/// What loading a `message` section gives: the first unknown key, or the
/// settings.
pub open spec fn message_outcome(m: Mapping, r: Result<RinfConfigMessage, RinfCommandError>) -> bool {
    match first_outside(yaml_keys(m), message_keys()) {
        Some(k) => match r {
            Err(RinfCommandError::UnknownKey(key, list)) => key@ == k && list@ == MESSAGE_KEY_LIST@,
            _ => false,
        },
        None => match r {
            Ok(c) => c@ == message_from(m),
            _ => false,
        },
    }
}

/// What loading a `rinf` section gives.
pub open spec fn config_outcome(m: Mapping, r: Result<RinfConfig, RinfCommandError>) -> bool {
    match first_outside(yaml_keys(m), config_keys()) {
        Some(k) => match r {
            Err(RinfCommandError::UnknownKey(key, list)) => key@ == k && list@ == CONFIG_KEY_LIST@,
            _ => false,
        },
        None => if yaml_tables(m).contains_key("message"@) {
            message_outcome(
                yaml_tables(m)["message"@],
                match r {
                    Ok(c) => Ok(c.message),
                    Err(e) => Err(e),
                },
            )
        } else {
            match r {
                Ok(c) => c.message@ == default_message(),
                _ => false,
            }
        },
    }
}

fn is_message_key(k: &String) -> (r: bool)
    ensures
        r == message_keys().contains(k@),
{
    is_word(k, "input_dir") || is_word(k, "rust_output_dir") || is_word(k, "dart_output_dir")
        || is_word(k, "rust_serde")
}

fn is_config_key(k: &String) -> (r: bool)
    ensures
        r == config_keys().contains(k@),
{
    is_word(k, "message")
}

proof fn lemma_first_outside_step(keys: Seq<Seq<char>>, allowed: Set<Seq<char>>, i: int)
    requires
        0 <= i <= keys.len(),
        forall|j: int| 0 <= j < i ==> allowed.contains(#[trigger] keys[j]),
    ensures
        first_outside(keys, allowed) == first_outside(keys.subrange(i, keys.len() as int), allowed),
    decreases i,
{
    if i > 0 {
        let rest = keys.subrange(1, keys.len() as int);
        assert forall|j: int| 0 <= j < i - 1 implies allowed.contains(#[trigger] rest[j]) by {
            assert(rest[j] == keys[j + 1]);
        }
        lemma_first_outside_step(rest, allowed, i - 1);
        assert(rest.subrange(i - 1, rest.len() as int) =~= keys.subrange(i, keys.len() as int));
        assert(allowed.contains(keys[0]));
    } else {
        assert(keys.subrange(0, keys.len() as int) =~= keys);
    }
}

/// Finds the first key of `m` that is not a message setting.
fn unknown_message_key(m: &Mapping) -> (r: Option<String>)
    ensures
        match r {
            Some(k) => first_outside(yaml_keys(*m), message_keys()) == Some(k@),
            None => first_outside(yaml_keys(*m), message_keys()) is None,
        },
{
    let keys = mapping_keys(m);
    let ghost ks = yaml_keys(*m);
    let mut i: usize = 0;
    while i < keys.len()
        invariant
            0 <= i <= keys.len(),
            ks == keys@.map_values(|k: String| k@),
            ks == yaml_keys(*m),
            forall|j: int| 0 <= j < i ==> message_keys().contains(#[trigger] ks[j]),
        decreases keys.len() - i,
    {
        if !is_message_key(&keys[i]) {
            proof {
                lemma_first_outside_step(ks, message_keys(), i as int);
                let sub = ks.subrange(i as int, ks.len() as int);
                assert(sub[0] == ks[i as int]);
                assert(ks[i as int] == keys@[i as int]@);
                assert(!message_keys().contains(sub[0]));
                assert(first_outside(sub, message_keys()) == Some(sub[0]));
            }
            return Some(keys[i].clone());
        }
        i += 1;
    }
    proof {
        lemma_first_outside_step(ks, message_keys(), i as int);
    }
    None
}

/// Finds the first key of `m` that is not a section of the configuration.
fn unknown_config_key(m: &Mapping) -> (r: Option<String>)
    ensures
        match r {
            Some(k) => first_outside(yaml_keys(*m), config_keys()) == Some(k@),
            None => first_outside(yaml_keys(*m), config_keys()) is None,
        },
{
    let keys = mapping_keys(m);
    let ghost ks = yaml_keys(*m);
    let mut i: usize = 0;
    while i < keys.len()
        invariant
            0 <= i <= keys.len(),
            ks == keys@.map_values(|k: String| k@),
            ks == yaml_keys(*m),
            forall|j: int| 0 <= j < i ==> config_keys().contains(#[trigger] ks[j]),
        decreases keys.len() - i,
    {
        if !is_config_key(&keys[i]) {
            proof {
                lemma_first_outside_step(ks, config_keys(), i as int);
                let sub = ks.subrange(i as int, ks.len() as int);
                assert(sub[0] == ks[i as int]);
                assert(ks[i as int] == keys@[i as int]@);
                assert(!config_keys().contains(sub[0]));
                assert(first_outside(sub, config_keys()) == Some(sub[0]));
            }
            return Some(keys[i].clone());
        }
        i += 1;
    }
    proof {
        lemma_first_outside_step(ks, config_keys(), i as int);
    }
    None
}

impl Default for RinfConfigMessage {
    /// The settings used where the section gives none.
    fn default() -> (r: RinfConfigMessage)
        ensures
            r@ == default_message(),
    {
        RinfConfigMessage {
            input_dir: String::from_str(DEFAULT_INPUT_DIR),
            rust_output_dir: String::from_str(DEFAULT_RUST_OUTPUT_DIR),
            dart_output_dir: String::from_str(DEFAULT_DART_OUTPUT_DIR),
            rust_serde: false,
        }
    }
}

impl RinfConfigMessage {

    /// Reads the `message` section. A key that is not a setting is an error
    /// naming it; a setting that is absent, or of another type, keeps its
    /// default.
    pub fn from_yaml(yaml: &Mapping) -> (r: Result<RinfConfigMessage, RinfCommandError>)
        ensures
            message_outcome(*yaml, r),
    {
        match unknown_message_key(yaml) {
            Some(k) => {
                return Err(RinfCommandError::UnknownKey(k, String::from_str(MESSAGE_KEY_LIST)));
            },
            None => {},
        }
        let input_dir = match text_entry(yaml, "input_dir") {
            Some(v) => v,
            None => String::from_str(DEFAULT_INPUT_DIR),
        };
        let rust_output_dir = match text_entry(yaml, "rust_output_dir") {
            Some(v) => v,
            None => String::from_str(DEFAULT_RUST_OUTPUT_DIR),
        };
        let dart_output_dir = match text_entry(yaml, "dart_output_dir") {
            Some(v) => v,
            None => String::from_str(DEFAULT_DART_OUTPUT_DIR),
        };
        let rust_serde = match flag_entry(yaml, "rust_serde") {
            Some(v) => v,
            None => false,
        };
        Ok(RinfConfigMessage { input_dir, rust_output_dir, dart_output_dir, rust_serde })
    }
}

impl Default for RinfConfig {
    /// The configuration used where the project gives none.
    fn default() -> (r: RinfConfig)
        ensures
            r.message@ == default_message(),
    {
        RinfConfig { message: RinfConfigMessage::default() }
    }
}

impl RinfConfig {

    /// Reads the `rinf` section: it may hold a `message` section and
    /// nothing else.
    pub fn from_yaml(yaml: &Mapping) -> (r: Result<RinfConfig, RinfCommandError>)
        ensures
            config_outcome(*yaml, r),
    {
        match unknown_config_key(yaml) {
            Some(k) => {
                return Err(RinfCommandError::UnknownKey(k, String::from_str(CONFIG_KEY_LIST)));
            },
            None => {},
        }
        match table_entry(yaml, "message") {
            Some(t) => match RinfConfigMessage::from_yaml(&t) {
                Ok(message) => Ok(RinfConfig { message }),
                Err(e) => Err(e),
            },
            None => Ok(RinfConfig::default()),
        }
    }
}

/// The configuration that a parsed `pubspec.yaml` gives: an error where the
/// document is not a mapping, the defaults where it has no `rinf` mapping.
pub fn config_from_document(document: Option<&Mapping>) -> (r: Result<RinfConfig, RinfCommandError>)
    ensures
        document_outcome(
            match document {
                Some(m) => Some(*m),
                None => None,
            },
            r,
        ),
{
    match document {
        None => Err(RinfCommandError::Other),
        Some(root) => match table_entry(root, "rinf") {
            Some(section) => RinfConfig::from_yaml(&section),
            None => Ok(RinfConfig::default()),
        },
    }
}

/// What loading the configuration from a parsed document gives.
pub open spec fn document_outcome(document: Option<Mapping>, r: Result<RinfConfig, RinfCommandError>) -> bool {
    match document {
        None => r matches Err(RinfCommandError::Other),
        Some(root) => if yaml_tables(root).contains_key("rinf"@) {
            config_outcome(yaml_tables(root)["rinf"@], r)
        } else {
            r matches Ok(c) && c.message@ == default_message()
        },
    }
}

/// Loads the configuration from the text of `pubspec.yaml`: a YAML error
/// where the text does not parse, and otherwise what its `rinf` section
/// gives.
pub fn load_verified_rinf_config(content: &str) -> (r: Result<RinfConfig, RinfCommandError>)
    ensures
        !yaml_parses(content@) ==> r matches Err(RinfCommandError::YamlError(_)),
        yaml_parses(content@) ==> document_outcome(yaml_root(content@), r),
{
    match parse_document(content) {
        Err(e) => Err(RinfCommandError::YamlError(e)),
        Ok(None) => config_from_document(None),
        Ok(Some(root)) => config_from_document(Some(&root)),
    }
}

/// The `publish_to` value of a parsed `pubspec.yaml`, where it is a string.
pub fn publish_to_of(document: Option<&Mapping>) -> (r: Option<String>)
    ensures
        match document {
            None => r is None,
            Some(root) => match r {
                Some(v) => yaml_texts(*root).contains_key("publish_to"@) && yaml_texts(*root)["publish_to"@] == v@,
                None => !yaml_texts(*root).contains_key("publish_to"@),
            },
        },
{
    match document {
        None => None,
        Some(root) => text_entry(root, "publish_to"),
    }
}

/// The `publish_to` string of a YAML text, where it parses to a mapping that
/// holds one.
pub open spec fn publish_to_in(text: Seq<char>) -> Option<Seq<char>> {
    if yaml_parses(text) && yaml_root(text) is Some && yaml_texts(
        yaml_root(text)->Some_0,
    ).contains_key("publish_to"@) {
        Some(yaml_texts(yaml_root(text)->Some_0)["publish_to"@])
    } else {
        None
    }
}

/// Reads `publish_to` from the text of `pubspec.yaml`; `None` where the text
/// does not parse to a mapping or holds no such string.
pub fn read_publish_to(content: &str) -> (r: Option<String>)
    ensures
        match r {
            Some(v) => publish_to_in(content@) == Some(v@),
            None => publish_to_in(content@) is None,
        },
{
    match parse_document(content) {
        Ok(Some(root)) => publish_to_of(Some(&root)),
        _ => None,
    }
}

/// Whether `publish_to` marks an app rather than a package.
pub fn is_app_publish_to(publish_to: &Option<String>) -> (r: bool)
    ensures
        r == (publish_to matches Some(v) && v@ == "none"@),
{
    match publish_to {
        Some(v) => is_word(v, "none"),
        None => false,
    }
}

/// Whether the text of `pubspec.yaml` is that of a Flutter app: its
/// `publish_to` is `none`.
pub fn is_flutter_app_project(pubspec: &str) -> (r: bool)
    ensures
        r == (publish_to_in(pubspec@) == Some("none"@)),
{
    let publish_to = read_publish_to(pubspec);
    is_app_publish_to(&publish_to)
}

} // verus!
