//! The node model: the descriptors that the build tool writes for each
//! node, and the rules that accept or refuse one.

use vstd::prelude::*;
use crate::error::{FieldFault, ValidationError};
use crate::fields::{
    texts_view,
    is_unset, json_opt, opt_count, opt_flag, opt_flag_entries, opt_flag_entries_view, opt_text,
    opt_text_entries, opt_text_entries_view, opt_text_view, opt_texts, opt_texts_entries,
    opt_texts_entries_view, opt_texts_view, optional, present, read_count, read_flag,
    read_flag_entries, read_text, read_text_entries, read_texts, read_texts_entries,
};
use crate::error::DbtError;
use crate::json::{field, get_field, members_model, Json, JsonValue};
use crate::models::{is_model, is_model_exec, load_fault, loaded, lookup, DbtManifest, ManifestSource};

verus! {

/// Whether a model's contract is enforced.
#[derive(Debug, Clone, PartialEq)]
pub struct Contract {
    pub alias_types: Option<bool>,
    pub enforced: Option<bool>,
}

/// How a node shows in the generated documentation.
#[derive(Debug, Clone, PartialEq)]
pub struct Docs {
    pub node_color: Option<String>,
    pub show: Option<bool>,
}

/// The identifiers a node depends on: macros and other nodes, in the order
/// the tool lists them.
#[derive(Debug, Clone, PartialEq)]
pub struct Dependencies {
    pub macros: Option<Vec<String>>,
    pub nodes: Option<Vec<String>>,
}

/// A node's build settings; a setting that the tool left out is `None`.
#[derive(Debug, Clone, PartialEq)]
pub struct Config {
    pub access: Option<String>,
    pub alias: Option<String>,
    pub batch_size: Option<u32>,
    pub begin: Option<String>,
    pub column_types: Option<Vec<(String, String)>>,
    pub concurrent_batches: Option<u32>,
    pub contract: Option<Contract>,
    pub database: Option<String>,
    pub docs: Option<Docs>,
    pub enabled: Option<bool>,
    pub event_time: Option<String>,
    pub full_refresh: Option<bool>,
    pub grants: Option<Vec<(String, Vec<String>)>>,
    pub group: Option<String>,
    pub incremental_strategy: Option<String>,
    pub lookback: Option<u32>,
    pub materialized: Option<String>,
    pub meta: Option<Vec<(String, String)>>,
    pub on_configuration_change: Option<String>,
    pub on_schema_change: Option<String>,
    pub packages: Option<Vec<String>>,
    pub persist_docs: Option<Vec<(String, String)>>,
    pub post_hook: Option<Vec<String>>,
    pub pre_hook: Option<Vec<String>>,
    pub quoting: Option<Vec<(String, bool)>>,
    pub schema: Option<String>,
    pub tags: Option<Vec<String>>,
    pub unique_key: Option<String>,
}

/// One node of the build graph.
#[derive(Debug, Clone, PartialEq)]
pub struct Node {
    pub alias: String,
    pub config: Config,
    pub depends_on: Dependencies,
    pub name: String,
    pub original_file_path: String,
    pub package_name: String,
    pub resource_type: String,
    pub tags: Vec<String>,
    pub unique_id: String,
}

pub open spec fn as_contract(j: JsonValue) -> Option<(Option<bool>, Option<bool>)> {
    match j {
        JsonValue::Object(_) => match (
            opt_flag(field(j, "alias_types"@)),
            opt_flag(field(j, "enforced"@)),
        ) {
            (Some(a), Some(e)) => Some((a, e)),
            _ => None,
        },
        _ => None,
    }
}

pub open spec fn as_docs(j: JsonValue) -> Option<(Option<Seq<char>>, Option<bool>)> {
    match j {
        JsonValue::Object(_) => match (opt_text(field(j, "node_color"@)), opt_flag(field(j, "show"@))) {
            (Some(c), Some(s)) => Some((c, s)),
            _ => None,
        },
        _ => None,
    }
}

pub open spec fn opt_contract(v: Option<JsonValue>) -> Option<Option<(Option<bool>, Option<bool>)>> {
    optional(v, |j: JsonValue| as_contract(j))
}

pub open spec fn opt_docs(v: Option<JsonValue>) -> Option<Option<(Option<Seq<char>>, Option<bool>)>> {
    optional(v, |j: JsonValue| as_docs(j))
}

pub open spec fn opt_contract_view(o: Option<Contract>) -> Option<(Option<bool>, Option<bool>)> {
    match o {
        Some(c) => Some((c.alias_types, c.enforced)),
        None => None,
    }
}

pub open spec fn opt_docs_view(o: Option<Docs>) -> Option<(Option<Seq<char>>, Option<bool>)> {
    match o {
        Some(d) => Some((opt_text_view(d.node_color), d.show)),
        None => None,
    }
}

fn key_of<'a>(j: Option<&'a Json>, key: &str) -> (r: Option<&'a Json>)
    ensures
        json_opt(r) == match json_opt(j) {
            Some(v) => field(v, key@),
            None => None,
        },
{
    match j {
        Some(v) => get_field(v, key),
        None => None,
    }
}

/// The contract record of a config.
pub fn contract_value(j: &Json) -> (r: Option<Contract>)
    ensures
        opt_contract_view(r) == as_contract(j@),
{
    match j {
        Json::Object(_) => {
            let a = read_flag(get_field(j, "alias_types"));
            let e = read_flag(get_field(j, "enforced"));
            match (a, e) {
                (Some(alias_types), Some(enforced)) => Some(Contract { alias_types, enforced }),
                _ => None,
            }
        },
        _ => None,
    }
}

/// The docs record of a config.
pub fn docs_value(j: &Json) -> (r: Option<Docs>)
    ensures
        opt_docs_view(r) == as_docs(j@),
{
    match j {
        Json::Object(_) => {
            let c = read_text(get_field(j, "node_color"));
            let s = read_flag(get_field(j, "show"));
            match (c, s) {
                (Some(node_color), Some(show)) => Some(Docs { node_color, show }),
                _ => None,
            }
        },
        _ => None,
    }
}

/// An optional contract record.
pub fn read_contract(v: Option<&Json>) -> (r: Option<Option<Contract>>)
    ensures
        match r {
            Some(x) => opt_contract(json_opt(v)) == Some(opt_contract_view(x)),
            None => opt_contract(json_opt(v)) is None,
        },
{
    if is_unset(v) {
        return Some(None);
    }
    match v {
        Some(j) => match contract_value(j) {
            Some(x) => Some(Some(x)),
            None => None,
        },
        None => None,
    }
}

/// An optional docs record.
pub fn read_docs(v: Option<&Json>) -> (r: Option<Option<Docs>>)
    ensures
        match r {
            Some(x) => opt_docs(json_opt(v)) == Some(opt_docs_view(x)),
            None => opt_docs(json_opt(v)) is None,
        },
{
    if is_unset(v) {
        return Some(None);
    }
    match v {
        Some(j) => match docs_value(j) {
            Some(x) => Some(Some(x)),
            None => None,
        },
        None => None,
    }
}

/// A member of the member `c`, which may be absent.
pub open spec fn sub_field(c: Option<JsonValue>, key: Seq<char>) -> Option<JsonValue> {
    match present(c) {
        Some(j) => field(j, key),
        None => None,
    }
}

/// Whether the config member is absent, `null`, or an object whose every
/// setting has the right kind.
pub open spec fn config_ok(c: Option<JsonValue>) -> bool {
    &&& (present(c) is None || present(c)->0 is Object)
    &&& opt_text(sub_field(c, "access"@)) is Some
    &&& opt_text(sub_field(c, "alias"@)) is Some
    &&& opt_count(sub_field(c, "batch_size"@)) is Some
    &&& opt_text(sub_field(c, "begin"@)) is Some
    &&& opt_text_entries(sub_field(c, "column_types"@)) is Some
    &&& opt_count(sub_field(c, "concurrent_batches"@)) is Some
    &&& opt_contract(sub_field(c, "contract"@)) is Some
    &&& opt_text(sub_field(c, "database"@)) is Some
    &&& opt_docs(sub_field(c, "docs"@)) is Some
    &&& opt_flag(sub_field(c, "enabled"@)) is Some
    &&& opt_text(sub_field(c, "event_time"@)) is Some
    &&& opt_flag(sub_field(c, "full_refresh"@)) is Some
    &&& opt_texts_entries(sub_field(c, "grants"@)) is Some
    &&& opt_text(sub_field(c, "group"@)) is Some
    &&& opt_text(sub_field(c, "incremental_strategy"@)) is Some
    &&& opt_count(sub_field(c, "lookback"@)) is Some
    &&& opt_text(sub_field(c, "materialized"@)) is Some
    &&& opt_text_entries(sub_field(c, "meta"@)) is Some
    &&& opt_text(sub_field(c, "on_configuration_change"@)) is Some
    &&& opt_text(sub_field(c, "on_schema_change"@)) is Some
    &&& opt_texts(sub_field(c, "packages"@)) is Some
    &&& opt_text_entries(sub_field(c, "persist_docs"@)) is Some
    &&& opt_texts(sub_field(c, "post_hook"@)) is Some
    &&& opt_texts(sub_field(c, "pre_hook"@)) is Some
    &&& opt_flag_entries(sub_field(c, "quoting"@)) is Some
    &&& opt_text(sub_field(c, "schema"@)) is Some
    &&& opt_texts(sub_field(c, "tags"@)) is Some
    &&& opt_text(sub_field(c, "unique_key"@)) is Some
}

/// Whether `cfg` holds each setting of the config member `c`.
pub open spec fn config_matches(cfg: Config, c: Option<JsonValue>) -> bool {
    &&& opt_text_view(cfg.access) == opt_text(sub_field(c, "access"@))->0
    &&& opt_text_view(cfg.alias) == opt_text(sub_field(c, "alias"@))->0
    &&& cfg.batch_size == opt_count(sub_field(c, "batch_size"@))->0
    &&& opt_text_view(cfg.begin) == opt_text(sub_field(c, "begin"@))->0
    &&& opt_text_entries_view(cfg.column_types) == opt_text_entries(sub_field(c, "column_types"@))->0
    &&& cfg.concurrent_batches == opt_count(sub_field(c, "concurrent_batches"@))->0
    &&& opt_contract_view(cfg.contract) == opt_contract(sub_field(c, "contract"@))->0
    &&& opt_text_view(cfg.database) == opt_text(sub_field(c, "database"@))->0
    &&& opt_docs_view(cfg.docs) == opt_docs(sub_field(c, "docs"@))->0
    &&& cfg.enabled == opt_flag(sub_field(c, "enabled"@))->0
    &&& opt_text_view(cfg.event_time) == opt_text(sub_field(c, "event_time"@))->0
    &&& cfg.full_refresh == opt_flag(sub_field(c, "full_refresh"@))->0
    &&& opt_texts_entries_view(cfg.grants) == opt_texts_entries(sub_field(c, "grants"@))->0
    &&& opt_text_view(cfg.group) == opt_text(sub_field(c, "group"@))->0
    &&& opt_text_view(cfg.incremental_strategy) == opt_text(sub_field(c, "incremental_strategy"@))->0
    &&& cfg.lookback == opt_count(sub_field(c, "lookback"@))->0
    &&& opt_text_view(cfg.materialized) == opt_text(sub_field(c, "materialized"@))->0
    &&& opt_text_entries_view(cfg.meta) == opt_text_entries(sub_field(c, "meta"@))->0
    &&& opt_text_view(cfg.on_configuration_change) == opt_text(sub_field(c, "on_configuration_change"@))->0
    &&& opt_text_view(cfg.on_schema_change) == opt_text(sub_field(c, "on_schema_change"@))->0
    &&& opt_texts_view(cfg.packages) == opt_texts(sub_field(c, "packages"@))->0
    &&& opt_text_entries_view(cfg.persist_docs) == opt_text_entries(sub_field(c, "persist_docs"@))->0
    &&& opt_texts_view(cfg.post_hook) == opt_texts(sub_field(c, "post_hook"@))->0
    &&& opt_texts_view(cfg.pre_hook) == opt_texts(sub_field(c, "pre_hook"@))->0
    &&& opt_flag_entries_view(cfg.quoting) == opt_flag_entries(sub_field(c, "quoting"@))->0
    &&& opt_text_view(cfg.schema) == opt_text(sub_field(c, "schema"@))->0
    &&& opt_texts_view(cfg.tags) == opt_texts(sub_field(c, "tags"@))->0
    &&& opt_text_view(cfg.unique_key) == opt_text(sub_field(c, "unique_key"@))->0
}

/// The first setting, in the order of `Config`'s fields, whose value has
/// the wrong kind; `config` itself where it is neither absent, `null` nor an
/// object.
pub open spec fn config_first_fault(c: Option<JsonValue>) -> Option<Seq<char>> {
    if !(present(c) is None || present(c)->0 is Object) {
        Some("config"@)
    } else if opt_text(sub_field(c, "access"@)) is None {
        Some("access"@)
    } else if opt_text(sub_field(c, "alias"@)) is None {
        Some("alias"@)
    } else if opt_count(sub_field(c, "batch_size"@)) is None {
        Some("batch_size"@)
    } else if opt_text(sub_field(c, "begin"@)) is None {
        Some("begin"@)
    } else if opt_text_entries(sub_field(c, "column_types"@)) is None {
        Some("column_types"@)
    } else if opt_count(sub_field(c, "concurrent_batches"@)) is None {
        Some("concurrent_batches"@)
    } else if opt_contract(sub_field(c, "contract"@)) is None {
        Some("contract"@)
    } else if opt_text(sub_field(c, "database"@)) is None {
        Some("database"@)
    } else if opt_docs(sub_field(c, "docs"@)) is None {
        Some("docs"@)
    } else if opt_flag(sub_field(c, "enabled"@)) is None {
        Some("enabled"@)
    } else if opt_text(sub_field(c, "event_time"@)) is None {
        Some("event_time"@)
    } else if opt_flag(sub_field(c, "full_refresh"@)) is None {
        Some("full_refresh"@)
    } else if opt_texts_entries(sub_field(c, "grants"@)) is None {
        Some("grants"@)
    } else if opt_text(sub_field(c, "group"@)) is None {
        Some("group"@)
    } else if opt_text(sub_field(c, "incremental_strategy"@)) is None {
        Some("incremental_strategy"@)
    } else if opt_count(sub_field(c, "lookback"@)) is None {
        Some("lookback"@)
    } else if opt_text(sub_field(c, "materialized"@)) is None {
        Some("materialized"@)
    } else if opt_text_entries(sub_field(c, "meta"@)) is None {
        Some("meta"@)
    } else if opt_text(sub_field(c, "on_configuration_change"@)) is None {
        Some("on_configuration_change"@)
    } else if opt_text(sub_field(c, "on_schema_change"@)) is None {
        Some("on_schema_change"@)
    } else if opt_texts(sub_field(c, "packages"@)) is None {
        Some("packages"@)
    } else if opt_text_entries(sub_field(c, "persist_docs"@)) is None {
        Some("persist_docs"@)
    } else if opt_texts(sub_field(c, "post_hook"@)) is None {
        Some("post_hook"@)
    } else if opt_texts(sub_field(c, "pre_hook"@)) is None {
        Some("pre_hook"@)
    } else if opt_flag_entries(sub_field(c, "quoting"@)) is None {
        Some("quoting"@)
    } else if opt_text(sub_field(c, "schema"@)) is None {
        Some("schema"@)
    } else if opt_texts(sub_field(c, "tags"@)) is None {
        Some("tags"@)
    } else if opt_text(sub_field(c, "unique_key"@)) is None {
        Some("unique_key"@)
    } else {
        None
    }
}

pub(crate) fn mismatch(key: &str) -> (r: ValidationError)
    ensures
        r@ == FieldFault::Mismatch(key@),
{
    ValidationError::TypeMismatch(key.to_owned())
}

/// The settings of a node, read from its config member: absent or `null`
/// for no settings at all.
pub fn parse_config(c: Option<&Json>) -> (r: Result<Config, ValidationError>)
    ensures
        match r {
            Ok(cfg) => config_ok(json_opt(c)) && config_first_fault(json_opt(c)) is None
                && config_matches(cfg, json_opt(c)),
            Err(e) => !config_ok(json_opt(c)) && (config_first_fault(json_opt(c)) matches Some(k)
                && e@ == FieldFault::Mismatch(k)),
        },
{
    let unset = is_unset(c);
    if !unset {
        match c {
            Some(Json::Object(_)) => {},
            _ => return Err(mismatch("config")),
        }
    }
    let access = match read_text(key_of(c, "access")) {
        Some(x) => x,
        None => return Err(mismatch("access")),
    };
    let alias = match read_text(key_of(c, "alias")) {
        Some(x) => x,
        None => return Err(mismatch("alias")),
    };
    let batch_size = match read_count(key_of(c, "batch_size")) {
        Some(x) => x,
        None => return Err(mismatch("batch_size")),
    };
    let begin = match read_text(key_of(c, "begin")) {
        Some(x) => x,
        None => return Err(mismatch("begin")),
    };
    let column_types = match read_text_entries(key_of(c, "column_types")) {
        Some(x) => x,
        None => return Err(mismatch("column_types")),
    };
    let concurrent_batches = match read_count(key_of(c, "concurrent_batches")) {
        Some(x) => x,
        None => return Err(mismatch("concurrent_batches")),
    };
    let contract = match read_contract(key_of(c, "contract")) {
        Some(x) => x,
        None => return Err(mismatch("contract")),
    };
    let database = match read_text(key_of(c, "database")) {
        Some(x) => x,
        None => return Err(mismatch("database")),
    };
    let docs = match read_docs(key_of(c, "docs")) {
        Some(x) => x,
        None => return Err(mismatch("docs")),
    };
    let enabled = match read_flag(key_of(c, "enabled")) {
        Some(x) => x,
        None => return Err(mismatch("enabled")),
    };
    let event_time = match read_text(key_of(c, "event_time")) {
        Some(x) => x,
        None => return Err(mismatch("event_time")),
    };
    let full_refresh = match read_flag(key_of(c, "full_refresh")) {
        Some(x) => x,
        None => return Err(mismatch("full_refresh")),
    };
    let grants = match read_texts_entries(key_of(c, "grants")) {
        Some(x) => x,
        None => return Err(mismatch("grants")),
    };
    let group = match read_text(key_of(c, "group")) {
        Some(x) => x,
        None => return Err(mismatch("group")),
    };
    let incremental_strategy = match read_text(key_of(c, "incremental_strategy")) {
        Some(x) => x,
        None => return Err(mismatch("incremental_strategy")),
    };
    let lookback = match read_count(key_of(c, "lookback")) {
        Some(x) => x,
        None => return Err(mismatch("lookback")),
    };
    let materialized = match read_text(key_of(c, "materialized")) {
        Some(x) => x,
        None => return Err(mismatch("materialized")),
    };
    let meta = match read_text_entries(key_of(c, "meta")) {
        Some(x) => x,
        None => return Err(mismatch("meta")),
    };
    let on_configuration_change = match read_text(key_of(c, "on_configuration_change")) {
        Some(x) => x,
        None => return Err(mismatch("on_configuration_change")),
    };
    let on_schema_change = match read_text(key_of(c, "on_schema_change")) {
        Some(x) => x,
        None => return Err(mismatch("on_schema_change")),
    };
    let packages = match read_texts(key_of(c, "packages")) {
        Some(x) => x,
        None => return Err(mismatch("packages")),
    };
    let persist_docs = match read_text_entries(key_of(c, "persist_docs")) {
        Some(x) => x,
        None => return Err(mismatch("persist_docs")),
    };
    let post_hook = match read_texts(key_of(c, "post_hook")) {
        Some(x) => x,
        None => return Err(mismatch("post_hook")),
    };
    let pre_hook = match read_texts(key_of(c, "pre_hook")) {
        Some(x) => x,
        None => return Err(mismatch("pre_hook")),
    };
    let quoting = match read_flag_entries(key_of(c, "quoting")) {
        Some(x) => x,
        None => return Err(mismatch("quoting")),
    };
    let schema = match read_text(key_of(c, "schema")) {
        Some(x) => x,
        None => return Err(mismatch("schema")),
    };
    let tags = match read_texts(key_of(c, "tags")) {
        Some(x) => x,
        None => return Err(mismatch("tags")),
    };
    let unique_key = match read_text(key_of(c, "unique_key")) {
        Some(x) => x,
        None => return Err(mismatch("unique_key")),
    };
    Ok(Config {
        access,
        alias,
        batch_size,
        begin,
        column_types,
        concurrent_batches,
        contract,
        database,
        docs,
        enabled,
        event_time,
        full_refresh,
        grants,
        group,
        incremental_strategy,
        lookback,
        materialized,
        meta,
        on_configuration_change,
        on_schema_change,
        packages,
        persist_docs,
        post_hook,
        pre_hook,
        quoting,
        schema,
        tags,
        unique_key,
    })
}


/// A required text member.
pub open spec fn required_text(v: Option<JsonValue>) -> Option<Seq<char>> {
    match v {
        Some(JsonValue::Str(s)) => Some(s),
        _ => None,
    }
}

pub open spec fn text_or_empty(o: Option<Seq<char>>) -> Seq<char> {
    match o {
        Some(s) => s,
        None => Seq::empty(),
    }
}

pub open spec fn texts_or_empty(o: Option<Seq<Seq<char>>>) -> Seq<Seq<char>> {
    match o {
        Some(s) => s,
        None => Seq::empty(),
    }
}

/// Whether the dependencies member is absent, `null`, or an object whose
/// `macros` and `nodes` are arrays of texts where set.
pub open spec fn deps_ok(d: Option<JsonValue>) -> bool {
    &&& (present(d) is None || present(d)->0 is Object)
    &&& opt_texts(sub_field(d, "macros"@)) is Some
    &&& opt_texts(sub_field(d, "nodes"@)) is Some
}

/// Whether a descriptor is accepted as a node: `unique_id`, `name` and
/// `resource_type` are texts, and every other member has the right kind
/// where it is set.
pub open spec fn node_ok(j: JsonValue) -> bool {
    &&& required_text(field(j, "unique_id"@)) is Some
    &&& required_text(field(j, "name"@)) is Some
    &&& required_text(field(j, "resource_type"@)) is Some
    &&& opt_text(field(j, "alias"@)) is Some
    &&& opt_text(field(j, "package_name"@)) is Some
    &&& opt_text(field(j, "original_file_path"@)) is Some
    &&& opt_texts(field(j, "tags"@)) is Some
    &&& deps_ok(field(j, "depends_on"@))
    &&& config_ok(field(j, "config"@))
}

/// Whether `n` holds what the descriptor says: a descriptive text or the tags
/// that are not set are empty, the dependencies and settings not set are
/// `None`.
pub open spec fn node_matches(n: Node, j: JsonValue) -> bool {
    &&& n.unique_id@ == required_text(field(j, "unique_id"@))->0
    &&& n.name@ == required_text(field(j, "name"@))->0
    &&& n.resource_type@ == required_text(field(j, "resource_type"@))->0
    &&& n.alias@ == text_or_empty(opt_text(field(j, "alias"@))->0)
    &&& n.package_name@ == text_or_empty(opt_text(field(j, "package_name"@))->0)
    &&& n.original_file_path@ == text_or_empty(opt_text(field(j, "original_file_path"@))->0)
    &&& texts_view(n.tags) == texts_or_empty(opt_texts(field(j, "tags"@))->0)
    &&& opt_texts_view(n.depends_on.macros) == opt_texts(
        sub_field(field(j, "depends_on"@), "macros"@),
    )->0
    &&& opt_texts_view(n.depends_on.nodes) == opt_texts(
        sub_field(field(j, "depends_on"@), "nodes"@),
    )->0
    &&& config_matches(n.config, field(j, "config"@))
}

pub open spec fn is_required(key: Seq<char>) -> bool {
    key == "unique_id"@ || key == "name"@ || key == "resource_type"@
}

/// The fault of a required text member, if any.
pub open spec fn required_fault(j: JsonValue, key: Seq<char>) -> Option<FieldFault> {
    if field(j, key) is None {
        Some(FieldFault::Missing(key))
    } else if required_text(field(j, key)) is None {
        Some(FieldFault::Mismatch(key))
    } else {
        None
    }
}

/// The first member of `depends_on`, itself first, whose value has the wrong
/// kind.
pub open spec fn deps_first_fault(d: Option<JsonValue>) -> Option<Seq<char>> {
    if !(present(d) is None || present(d)->0 is Object) {
        Some("depends_on"@)
    } else if opt_texts(sub_field(d, "macros"@)) is None {
        Some("macros"@)
    } else if opt_texts(sub_field(d, "nodes"@)) is None {
        Some("nodes"@)
    } else {
        None
    }
}

/// The first fault of a descriptor, in the order `unique_id`, `name`,
/// `resource_type`, `alias`, `package_name`, `original_file_path`, `tags`,
/// `depends_on` and its members, then `config` and its settings.
pub open spec fn node_first_fault(j: JsonValue) -> Option<FieldFault> {
    if required_fault(j, "unique_id"@) is Some {
        required_fault(j, "unique_id"@)
    } else if required_fault(j, "name"@) is Some {
        required_fault(j, "name"@)
    } else if required_fault(j, "resource_type"@) is Some {
        required_fault(j, "resource_type"@)
    } else if opt_text(field(j, "alias"@)) is None {
        Some(FieldFault::Mismatch("alias"@))
    } else if opt_text(field(j, "package_name"@)) is None {
        Some(FieldFault::Mismatch("package_name"@))
    } else if opt_text(field(j, "original_file_path"@)) is None {
        Some(FieldFault::Mismatch("original_file_path"@))
    } else if opt_texts(field(j, "tags"@)) is None {
        Some(FieldFault::Mismatch("tags"@))
    } else if deps_first_fault(field(j, "depends_on"@)) is Some {
        Some(FieldFault::Mismatch(deps_first_fault(field(j, "depends_on"@))->0))
    } else if config_first_fault(field(j, "config"@)) is Some {
        Some(FieldFault::Mismatch(config_first_fault(field(j, "config"@))->0))
    } else {
        None
    }
}

pub(crate) fn required(j: &Json, key: &str) -> (r: Result<String, ValidationError>)
    ensures
        match r {
            Ok(s) => required_fault(j@, key@) is None && required_text(field(j@, key@)) == Some(s@),
            Err(e) => required_fault(j@, key@) == Some(e@),
        },
{
    match get_field(j, key) {
        None => Err(ValidationError::MissingField(key.to_owned())),
        Some(Json::Str(s)) => Ok(s.clone()),
        Some(_) => Err(mismatch(key)),
    }
}

fn optional_text(j: &Json, key: &str) -> (r: Result<String, ValidationError>)
    ensures
        match r {
            Ok(s) => opt_text(field(j@, key@)) is Some && s@ == text_or_empty(
                opt_text(field(j@, key@))->0,
            ),
            Err(e) => opt_text(field(j@, key@)) is None && e@ == FieldFault::Mismatch(key@),
        },
{
    match read_text(get_field(j, key)) {
        Some(Some(s)) => Ok(s),
        Some(None) => Ok(String::new()),
        None => Err(mismatch(key)),
    }
}

/// The dependencies of a node, read from its `depends_on` member.
fn parse_dependencies(d: Option<&Json>) -> (r: Result<Dependencies, ValidationError>)
    ensures
        match r {
            Ok(deps) => deps_ok(json_opt(d)) && deps_first_fault(json_opt(d)) is None && opt_texts_view(deps.macros) == opt_texts(
                sub_field(json_opt(d), "macros"@),
            )->0 && opt_texts_view(deps.nodes) == opt_texts(sub_field(json_opt(d), "nodes"@))->0,
            Err(e) => !deps_ok(json_opt(d)) && (deps_first_fault(json_opt(d)) matches Some(k) && e@
                == FieldFault::Mismatch(k)),
        },
{
    if !is_unset(d) {
        match d {
            Some(Json::Object(_)) => {},
            _ => return Err(mismatch("depends_on")),
        }
    }
    let macros = match read_texts(key_of(d, "macros")) {
        Some(x) => x,
        None => return Err(mismatch("macros")),
    };
    let nodes = match read_texts(key_of(d, "nodes")) {
        Some(x) => x,
        None => return Err(mismatch("nodes")),
    };
    Ok(Dependencies { macros, nodes })
}

/// Reads a node from its descriptor. Refuses, with the first member at
/// fault, a descriptor without a text `unique_id`, `name` or
/// `resource_type`, or with a member of the wrong kind; no setting is
/// required.
pub fn parse_node(j: &Json) -> (r: Result<Node, ValidationError>)
    ensures
        match r {
            Ok(n) => node_ok(j@) && node_first_fault(j@) is None && node_matches(n, j@),
            Err(e) => !node_ok(j@) && node_first_fault(j@) == Some(e@),
        },
{
    let unique_id = match required(j, "unique_id") {
        Ok(s) => s,
        Err(e) => return Err(e),
    };
    let name = match required(j, "name") {
        Ok(s) => s,
        Err(e) => return Err(e),
    };
    let resource_type = match required(j, "resource_type") {
        Ok(s) => s,
        Err(e) => return Err(e),
    };
    let alias = match optional_text(j, "alias") {
        Ok(s) => s,
        Err(e) => return Err(e),
    };
    let package_name = match optional_text(j, "package_name") {
        Ok(s) => s,
        Err(e) => return Err(e),
    };
    let original_file_path = match optional_text(j, "original_file_path") {
        Ok(s) => s,
        Err(e) => return Err(e),
    };
    let tags = match read_texts(get_field(j, "tags")) {
        Some(Some(t)) => t,
        Some(None) => {
            let none: Vec<String> = Vec::new();
            proof {
                assert(texts_view(none) =~= Seq::<Seq<char>>::empty());
            }
            none
        },
        None => return Err(mismatch("tags")),
    };
    let depends_on = match parse_dependencies(get_field(j, "depends_on")) {
        Ok(d) => d,
        Err(e) => return Err(e),
    };
    let config = match parse_config(get_field(j, "config")) {
        Ok(c) => c,
        Err(e) => return Err(e),
    };
    Ok(Node {
        alias,
        config,
        depends_on,
        name,
        original_file_path,
        package_name,
        resource_type,
        tags,
        unique_id,
    })
}


/// The general part of a model's documentation.
#[derive(Debug, PartialEq)]
pub struct DocGeneral {
    pub name: Json,
    pub description: Json,
    pub materialized: Json,
    pub schema: Json,
    pub database: Json,
    pub primary_keys: Json,
    pub tags: Json,
}

/// One column of a model's documentation.
#[derive(Debug, PartialEq)]
pub struct DocColumn {
    pub name: Json,
    pub data_type: Json,
    pub description: Json,
}

/// Where a model's SQL lives and what it says.
#[derive(Debug, PartialEq)]
pub struct DocSql {
    pub relation_name: Json,
    pub raw_code: Json,
}

/// A model's catalog entry: general facts, columns and SQL, each fact that
/// the catalog lacks replaced by a placeholder.
#[derive(Debug, PartialEq)]
pub struct DocEntry {
    pub general: DocGeneral,
    pub columns: Vec<DocColumn>,
    pub sql: DocSql,
}

pub open spec fn or_default(v: Option<JsonValue>, dflt: JsonValue) -> JsonValue {
    match v {
        Some(x) => x,
        None => dflt,
    }
}

pub open spec fn unknown() -> JsonValue {
    JsonValue::Str("Unknown"@)
}

pub open spec fn no_description() -> JsonValue {
    JsonValue::Str("No description available"@)
}

/// A member of the descriptor's `config`.
pub open spec fn config_member(d: JsonValue, key: Seq<char>) -> Option<JsonValue> {
    match field(d, "config"@) {
        Some(c) => field(c, key),
        None => None,
    }
}

/// A column's documentation: its `name`, `type` and `comment`.
pub open spec fn column_doc(col: JsonValue) -> (JsonValue, JsonValue, JsonValue) {
    (
        or_default(field(col, "name"@), unknown()),
        or_default(field(col, "type"@), unknown()),
        or_default(field(col, "comment"@), no_description()),
    )
}

/// The columns of a catalog entry: one for each member of its `columns`
/// object, in order.
pub open spec fn columns_doc(d: JsonValue) -> Seq<(JsonValue, JsonValue, JsonValue)> {
    match field(d, "columns"@) {
        Some(JsonValue::Object(cols)) => cols.map_values(
            |c: (Seq<char>, JsonValue)| column_doc(c.1),
        ),
        _ => Seq::empty(),
    }
}

pub open spec fn column_view(c: DocColumn) -> (JsonValue, JsonValue, JsonValue) {
    (c.name@, c.data_type@, c.description@)
}

/// Whether `doc` documents the catalog entry `d`.
pub open spec fn doc_matches(doc: DocEntry, d: JsonValue) -> bool {
    &&& doc.general.name@ == or_default(field(d, "name"@), unknown())
    &&& doc.general.description@ == or_default(field(d, "description"@), no_description())
    &&& doc.general.materialized@ == or_default(config_member(d, "materialized"@), unknown())
    &&& doc.general.schema@ == or_default(field(d, "schema"@), unknown())
    &&& doc.general.database@ == or_default(field(d, "database"@), unknown())
    &&& doc.general.primary_keys@ == or_default(
        field(d, "primary_key"@),
        JsonValue::Array(Seq::empty()),
    )
    &&& doc.general.tags@ == or_default(field(d, "tags"@), JsonValue::Array(Seq::empty()))
    &&& doc.columns@.map_values(|c: DocColumn| column_view(c)) == columns_doc(d)
    &&& doc.sql.relation_name@ == or_default(field(d, "relation_name"@), unknown())
    &&& doc.sql.raw_code@ == or_default(
        field(d, "raw_code"@),
        JsonValue::Str("No SQL code available"@),
    )
}

fn text_json(t: &str) -> (r: Json)
    ensures
        r@ == JsonValue::Str(t@),
{
    Json::Str(t.to_owned())
}

fn member_or_text(d: &Json, key: &str, dflt: &str) -> (r: Json)
    ensures
        r@ == or_default(field(d@, key@), JsonValue::Str(dflt@)),
{
    match get_field(d, key) {
        Some(v) => v.duplicate(),
        None => text_json(dflt),
    }
}

fn member_or_empty(d: &Json, key: &str) -> (r: Json)
    ensures
        r@ == or_default(field(d@, key@), JsonValue::Array(Seq::empty())),
{
    match get_field(d, key) {
        Some(v) => v.duplicate(),
        None => {
            let items: Vec<Json> = Vec::new();
            proof {
                assert(crate::json::items_model(items@) =~= Seq::<JsonValue>::empty());
            }
            Json::Array(items)
        },
    }
}

/// The documentation of a catalog entry.
pub fn doc_entry(d: &Json) -> (r: DocEntry)
    ensures
        doc_matches(r, d@),
{
    let materialized = match get_field(d, "config") {
        Some(c) => member_or_text(c, "materialized", "Unknown"),
        None => text_json("Unknown"),
    };
    let general = DocGeneral {
        name: member_or_text(d, "name", "Unknown"),
        description: member_or_text(d, "description", "No description available"),
        materialized,
        schema: member_or_text(d, "schema", "Unknown"),
        database: member_or_text(d, "database", "Unknown"),
        primary_keys: member_or_empty(d, "primary_key"),
        tags: member_or_empty(d, "tags"),
    };
    let mut columns: Vec<DocColumn> = Vec::new();
    match get_field(d, "columns") {
        Some(Json::Object(cols)) => {
            let ghost all = members_model(cols@);
            let mut i: usize = 0;
            proof {
                crate::json::lemma_members_model_len(cols@);
                assert(columns@.map_values(|c: DocColumn| column_view(c)) =~= all.take(0).map_values(
                    |c: (Seq<char>, JsonValue)| column_doc(c.1),
                ));
            }
            while i < cols.len()
                invariant
                    i <= cols.len() == all.len(),
                    columns.len() == i,
                    all == members_model(cols@),
                    columns@.map_values(|c: DocColumn| column_view(c)) == all.take(i as int).map_values(
                        |c: (Seq<char>, JsonValue)| column_doc(c.1),
                    ),
                decreases cols.len() - i,
            {
                proof {
                    crate::json::lemma_members_model_index(cols@, i as int);
                }
                let col = &cols[i].1;
                let c = DocColumn {
                    name: member_or_text(col, "name", "Unknown"),
                    data_type: member_or_text(col, "type", "Unknown"),
                    description: member_or_text(col, "comment", "No description available"),
                };
                let ghost before = columns@;
                let ghost cv = column_view(c);
                assert(cv == column_doc(all[i as int].1));
                columns.push(c);
                proof {
                    let lhs = columns@.map_values(|c: DocColumn| column_view(c));
                    let rhs = all.take(i + 1).map_values(|c: (Seq<char>, JsonValue)| column_doc(c.1));
                    let prev = all.take(i as int).map_values(|c: (Seq<char>, JsonValue)| column_doc(c.1));
                    assert(before.map_values(|c: DocColumn| column_view(c)) == prev);
                    assert forall|k: int| 0 <= k < i + 1 implies lhs[k] == rhs[k] by {
                        if k < i {
                            assert(columns@[k] == before[k]);
                            assert(lhs[k] == before.map_values(|c: DocColumn| column_view(c))[k]);
                            assert(rhs[k] == prev[k]);
                        }
                    }
                    assert(lhs.len() == rhs.len());
                    assert(columns@.map_values(|c: DocColumn| column_view(c)) =~= all.take(i + 1).map_values(
                        |c: (Seq<char>, JsonValue)| column_doc(c.1),
                    ));
                }
                i = i + 1;
            }
            proof {
                assert(all.take(cols.len() as int) =~= all);
            }
        },
        _ => {
            proof {
                assert(columns@.map_values(|c: DocColumn| column_view(c)) =~= Seq::<(JsonValue, JsonValue, JsonValue)>::empty());
            }
        },
    }
    let sql = DocSql {
        relation_name: member_or_text(d, "relation_name", "Unknown"),
        raw_code: member_or_text(d, "raw_code", "No SQL code available"),
    };
    DocEntry { general, columns, sql }
}


/// A model's name, for the listing.
pub open spec fn model_name(e: (Seq<char>, JsonValue)) -> Option<Seq<char>> {
    if is_model(e.1) {
        required_text(field(e.1, "name"@))
    } else {
        None
    }
}

/// The names of the manifest's models that have a text name, in order.
pub open spec fn model_names(m: Seq<(Seq<char>, JsonValue)>) -> Seq<Seq<char>> {
    m.filter_map(|e: (Seq<char>, JsonValue)| model_name(e))
}

/// The names of the models of the manifest; none where the manifest cannot
/// be had.
pub fn get_models(src: &ManifestSource) -> (r: Vec<String>)
    ensures
        texts_view(r) == match loaded(*src) {
            Some(m) => model_names(m),
            None => Seq::empty(),
        },
{
    let mut out: Vec<String> = Vec::new();
    proof {
        assert(texts_view(out) =~= Seq::<Seq<char>>::empty());
    }
    let m = match DbtManifest::load(src) {
        Ok(m) => m,
        Err(_) => return out,
    };
    let n = m.len();
    let mut i: usize = 0;
    proof {
        assert(m@.take(0) =~= Seq::<(Seq<char>, JsonValue)>::empty());
    }
    while i < n
        invariant
            i <= n == m@.len(),
            texts_view(out) == model_names(m@.take(i as int)),
        decreases n - i,
    {
        proof {
            assert(m@.take(i + 1).drop_last() =~= m@.take(i as int));
        }
        let d = m.descriptor_at(i);
        if is_model_exec(d) {
            match get_field(d, "name") {
                Some(Json::Str(s)) => {
                    let ghost before = out@;
                    out.push(s.clone());
                    proof {
                        assert(texts_view(out) =~= before.map_values(|s: String| s@).push(s@));
                        assert(texts_view(out) =~= model_names(m@.take(i as int)) + seq![s@]);
                    }
                },
                _ => {},
            }
        }
        i = i + 1;
    }
    proof {
        assert(m@.take(n as int) =~= m@);
    }
    out
}

/// Whether `r` is what a lookup of `id` in the manifest of `src` gives:
/// the error of the source, `NotFound`, or what `found` says of the entry
/// that `id` names.
pub open spec fn lookup_result<T>(
    src: ManifestSource,
    id: Seq<char>,
    r: Result<T, DbtError>,
    found: spec_fn(JsonValue, Result<T, DbtError>) -> bool,
) -> bool {
    match loaded(src) {
        None => r matches Err(e) && load_fault(src, e),
        Some(m) => match lookup(m, id) {
            None => r matches Err(DbtError::NotFound(x)) && x@ == id,
            Some(i) => found(m[i].1, r),
        },
    }
}

/// What reading a node from `d` gives.
pub open spec fn node_result(d: JsonValue, r: Result<Node, DbtError>) -> bool {
    match r {
        Ok(n) => node_ok(d) && node_matches(n, d),
        Err(e) => !node_ok(d) && (e matches DbtError::Validation(v) && node_first_fault(d)
            == Some(v@)),
    }
}

/// What documenting `d` gives.
pub open spec fn doc_result(d: JsonValue, r: Result<DocEntry, DbtError>) -> bool {
    r matches Ok(doc) && doc_matches(doc, d)
}

/// The model that `id` names in the manifest of `src`: the one under that
/// identifier, else the first whose identifier ends with `.` and `id`.
pub fn get_model_details(src: &ManifestSource, id: &str) -> (r: Result<Node, DbtError>)
    ensures
        lookup_result(*src, id@, r, |d: JsonValue, r: Result<Node, DbtError>| node_result(d, r)),
{
    let m = match DbtManifest::load(src) {
        Ok(m) => m,
        Err(e) => return Err(e),
    };
    match m.find_model(id) {
        None => Err(DbtError::NotFound(id.to_owned())),
        Some(i) => match parse_node(m.descriptor_at(i)) {
            Ok(n) => Ok(n),
            Err(v) => Err(DbtError::Validation(v)),
        },
    }
}

/// The catalog entry of the model that `id` names, matched as in
/// `get_model_details`.
pub fn get_model_docs(src: &ManifestSource, id: &str) -> (r: Result<DocEntry, DbtError>)
    ensures
        lookup_result(*src, id@, r, |d: JsonValue, r: Result<DocEntry, DbtError>| doc_result(d, r)),
{
    let m = match DbtManifest::load(src) {
        Ok(m) => m,
        Err(e) => return Err(e),
    };
    match m.find_model(id) {
        None => Err(DbtError::NotFound(id.to_owned())),
        Some(i) => Ok(doc_entry(m.descriptor_at(i))),
    }
}

/// The cached manifest's text as it stands, or `{}` where there is none.
pub fn get_manifest(cached: Option<String>) -> (r: String)
    ensures
        r@ == match cached {
            Some(t) => t@,
            None => "{}"@,
        },
{
    match cached {
        Some(t) => t,
        None => "{}".to_owned(),
    }
}

} // verus!
