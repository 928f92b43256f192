//! Kimi Code CLI live configuration.
//!
//! Kimi Code keeps `config.toml` under its data directory: providers under
//! `[providers.<name>]`, models under `[models."<alias>"]`, and the active
//! alias in the top-level `default_model`; user-level MCP servers live in
//! `mcp.json` under `mcpServers`. Reading and writing the files is the
//! caller's; this module turns their text into documents and snapshots, and a
//! provider into the edits of the document.
use vstd::prelude::*;
use crate::assoc::{assoc_get, assoc_set};
use crate::error::{is_localized, AppError};
use crate::json::{
    entries_view, json_get, json_i64, lemma_object_view, trimmed_field, JsonNumber, JsonV,
    JsonValue, NumberV,
};
use crate::json_text::{json_parse_outcome, json_pretty, json_pretty_outcome, parse_json};
use crate::paths::{join_path, joined, resolve_tool_dir, tool_dir};
use crate::text::{concat, is_blank, str_is_blank, str_trim, trimmed};
use crate::toml_text::{
    parse_toml_document, parse_toml_value, toml_doc_contains_key, toml_doc_contains_table,
    toml_doc_insert_in_table, toml_doc_insert_table, toml_doc_insert_value, toml_doc_items,
    toml_doc_parse_outcome, toml_doc_table_keys, toml_doc_text, toml_document_new, toml_document_text,
    toml_parse_outcome,
};
use crate::toml_tree::{
    scalars_view, table_get, table_of, table_view, tget, tint, tstr, ttable, TomlScalar, TomlV,
    TomlValue,
};

verus! {

/// The context size of a model that does not say.
pub const DEFAULT_MAX_CONTEXT_SIZE: i64 = 262144;

/// `get_kimicode_dir`: the configured directory, else `$KIMI_CODE_HOME` when
/// it is not blank, else `~/.kimi-code`.
pub fn get_kimicode_dir(configured: Option<String>, env_kimi_code_home: Option<String>, home: &str) -> (r: String)
    ensures
        r@ == tool_dir(
            match configured {
                Some(c) => Some(c@),
                None => None,
            },
            match env_kimi_code_home {
                Some(v) => Some(v@),
                None => None,
            },
            home@,
            ".kimi-code"@,
        ),
{
    resolve_tool_dir(configured, env_kimi_code_home, home, ".kimi-code")
}

/// The live configuration, `<dir>/config.toml`.
pub fn get_kimicode_config_path(kimicode_dir: &str) -> (r: String)
    ensures
        r@ == joined(kimicode_dir@, "config.toml"@),
{
    join_path(kimicode_dir, "config.toml")
}

/// The user-level MCP servers file, `<dir>/mcp.json`.
pub fn get_kimicode_mcp_path(kimicode_dir: &str) -> (r: String)
    ensures
        r@ == joined(kimicode_dir@, "mcp.json"@),
{
    join_path(kimicode_dir, "mcp.json")
}

pub open spec fn kimi_not_object(e: AppError) -> bool {
    is_localized(
        e,
        "provider.kimicode.settings.not_object"@,
        "Kimi Code 配置必须是 JSON 对象"@,
        "Kimi Code configuration must be a JSON object"@,
    )
}

pub open spec fn kimi_missing_field(e: AppError, field: Seq<char>) -> bool {
    is_localized(
        e,
        "provider.kimicode.field.missing"@,
        "Kimi Code 配置缺少有效的 "@ + field + " 字段"@,
        "Kimi Code configuration is missing a valid "@ + field + " field"@,
    )
}

/// The first of the required fields that is not a non-blank string.
pub open spec fn kimi_first_missing(s: JsonV) -> Option<Seq<char>> {
    if trimmed_field(s, "providerKey"@).len() == 0 {
        Some("providerKey"@)
    } else if trimmed_field(s, "type"@).len() == 0 {
        Some("type"@)
    } else if trimmed_field(s, "modelAlias"@).len() == 0 {
        Some("modelAlias"@)
    } else if trimmed_field(s, "modelId"@).len() == 0 {
        Some("modelId"@)
    } else {
        None
    }
}

/// The settings object is valid: an object whose `providerKey`, `type`,
/// `modelAlias` and `modelId` are non-blank strings.
pub open spec fn kimi_settings_valid(s: JsonV) -> bool {
    s is Obj && kimi_first_missing(s) is None
}

fn kimi_missing_field_error(field: &str) -> (e: AppError)
    ensures
        kimi_missing_field(e, field@),
{
    let zh = concat(concat("Kimi Code 配置缺少有效的 ", field).as_str(), " 字段");
    let en = concat(concat("Kimi Code configuration is missing a valid ", field).as_str(), " field");
    AppError::localized("provider.kimicode.field.missing", zh, en)
}

/// Validate the provider-owned structured settings object: it must be an
/// object whose `providerKey`, `type`, `modelAlias` and `modelId` are
/// non-blank strings; the first that fails is the error.
pub fn validate_kimicode_settings(settings: &JsonValue) -> (r: Result<(), AppError>)
    ensures
        r is Ok <==> kimi_settings_valid(settings@),
        r matches Err(e) ==> if !(settings@ is Obj) {
            kimi_not_object(e)
        } else {
            kimi_first_missing(settings@) matches Some(f) && kimi_missing_field(e, f)
        },
{
    if !settings.is_object() {
        return Err(
            AppError::localized(
                "provider.kimicode.settings.not_object",
                "Kimi Code 配置必须是 JSON 对象".to_owned(),
                "Kimi Code configuration must be a JSON object".to_owned(),
            ),
        );
    }
    if crate::dsh_config::str_field(settings, "providerKey").as_str().is_empty() {
        return Err(kimi_missing_field_error("providerKey"));
    }
    if crate::dsh_config::str_field(settings, "type").as_str().is_empty() {
        return Err(kimi_missing_field_error("type"));
    }
    if crate::dsh_config::str_field(settings, "modelAlias").as_str().is_empty() {
        return Err(kimi_missing_field_error("modelAlias"));
    }
    if crate::dsh_config::str_field(settings, "modelId").as_str().is_empty() {
        return Err(kimi_missing_field_error("modelId"));
    }
    Ok(())
}

pub open spec fn kimi_invalid_toml(e: AppError, m: Seq<char>) -> bool {
    is_localized(
        e,
        "provider.kimicode.config.invalid_toml"@,
        "Kimi Code config.toml 格式错误: "@ + m,
        "Invalid Kimi Code config.toml: "@ + m,
    )
}

pub open spec fn kimi_not_table(e: AppError) -> bool {
    is_localized(
        e,
        "provider.kimicode.config.not_table"@,
        "Kimi Code 配置必须是 TOML 表结构"@,
        "Kimi Code configuration must be a TOML table"@,
    )
}

pub open spec fn kimi_no_default_model(e: AppError) -> bool {
    is_localized(
        e,
        "provider.kimicode.default_model.missing"@,
        "Kimi Code 配置缺少 default_model"@,
        "Kimi Code configuration is missing default_model"@,
    )
}

fn invalid_toml_error(m: &str) -> (e: AppError)
    ensures
        kimi_invalid_toml(e, m@),
{
    let zh = concat("Kimi Code config.toml 格式错误: ", m);
    let en = concat("Invalid Kimi Code config.toml: ", m);
    AppError::localized("provider.kimicode.config.invalid_toml", zh, en)
}

/// `parse_toml`: the text of `config.toml` as a `toml` value.
pub fn parse_toml(text: &str) -> (r: Result<TomlValue, AppError>)
    ensures
        match toml_parse_outcome(text@) {
            Ok(v) => r matches Ok(x) && x@ == v,
            Err(m) => r matches Err(e) && kimi_invalid_toml(e, m),
        },
{
    match parse_toml_value(text) {
        Ok(v) => Ok(v),
        Err(m) => Err(invalid_toml_error(m.as_str())),
    }
}

/// A trimmed optional string, or `dflt`.
pub open spec fn trimmed_or(o: Option<Seq<char>>, dflt: Seq<char>) -> Seq<char> {
    match o {
        Some(s) => trimmed(s),
        None => dflt,
    }
}

/// The live provider settings of Kimi Code.
pub struct KimiLive {
    pub provider_key: Seq<char>,
    pub provider_type: Seq<char>,
    pub base_url: Seq<char>,
    pub api_key: Seq<char>,
    pub model_alias: Seq<char>,
    pub model_id: Seq<char>,
    pub max_context_size: i64,
}

/// The live settings in the top-level table of `config.toml`; nothing when
/// `default_model` is blank.
pub open spec fn kimi_live(top: Seq<(Seq<char>, TomlV)>) -> Option<KimiLive> {
    let alias = trimmed_or(tstr(assoc_get(top, "default_model"@)), Seq::empty());
    if alias.len() == 0 {
        None
    } else {
        let model_entry = ttable(tget(ttable(assoc_get(top, "models"@)), alias));
        let key = trimmed_or(tstr(tget(model_entry, "provider"@)), Seq::empty());
        let provider_entry = ttable(tget(ttable(assoc_get(top, "providers"@)), key));
        Some(
            KimiLive {
                provider_key: key,
                provider_type: trimmed_or(tstr(tget(provider_entry, "type"@)), "kimi"@),
                base_url: trimmed_or(tstr(tget(provider_entry, "base_url"@)), Seq::empty()),
                api_key: trimmed_or(tstr(tget(provider_entry, "api_key"@)), Seq::empty()),
                model_alias: alias,
                model_id: trimmed_or(tstr(tget(model_entry, "model"@)), Seq::empty()),
                max_context_size: match tint(tget(model_entry, "max_context_size"@)) {
                    Some(n) => if n > 0 {
                        n
                    } else {
                        DEFAULT_MAX_CONTEXT_SIZE
                    },
                    None => DEFAULT_MAX_CONTEXT_SIZE,
                },
            },
        )
    }
}

/// The JSON number of an `i64`.
pub open spec fn i64_number(n: i64) -> NumberV {
    if n >= 0 {
        NumberV::PosInt(n as u64)
    } else {
        NumberV::NegInt(n)
    }
}

/// The settings snapshot as the JSON object that the provider stores.
pub open spec fn kimi_live_json(l: KimiLive) -> JsonV {
    JsonV::Obj(
        seq![
            ("providerKey"@, JsonV::Str(l.provider_key)),
            ("type"@, JsonV::Str(l.provider_type)),
            ("baseUrl"@, JsonV::Str(l.base_url)),
            ("apiKey"@, JsonV::Str(l.api_key)),
            ("modelAlias"@, JsonV::Str(l.model_alias)),
            ("modelId"@, JsonV::Str(l.model_id)),
            ("maxContextSize"@, JsonV::Num(i64_number(l.max_context_size))),
        ],
    )
}

fn tget_opt<'a>(t: Option<&'a Vec<(String, TomlValue)>>, key: &str) -> (r: Option<&'a TomlValue>)
    ensures
        match r {
            Some(x) => tget(
                match t {
                    Some(e) => Some(table_view(e@)),
                    None => None,
                },
                key@,
            ) == Some(x@),
            None => tget(
                match t {
                    Some(e) => Some(table_view(e@)),
                    None => None,
                },
                key@,
            ) is None,
        },
{
    match t {
        Some(e) => table_get(e, key),
        None => None,
    }
}

fn as_table_opt<'a>(v: Option<&'a TomlValue>) -> (r: Option<&'a Vec<(String, TomlValue)>>)
    ensures
        match r {
            Some(e) => ttable(
                match v {
                    Some(x) => Some(x@),
                    None => None,
                },
            ) == Some(table_view(e@)),
            None => ttable(
                match v {
                    Some(x) => Some(x@),
                    None => None,
                },
            ) is None,
        },
{
    match v {
        Some(x) => x.as_table(),
        None => None,
    }
}

fn trimmed_str_or(v: Option<&TomlValue>, dflt: &str) -> (r: String)
    ensures
        r@ == trimmed_or(
            tstr(
                match v {
                    Some(x) => Some(x@),
                    None => None,
                },
            ),
            dflt@,
        ),
{
    match v {
        Some(x) => match x.as_str() {
            Some(s) => str_trim(s).to_owned(),
            None => dflt.to_owned(),
        },
        None => dflt.to_owned(),
    }
}

/// The live settings of the top-level table of `config.toml`, as the JSON
/// object the provider stores.
pub fn kimi_live_snapshot(top: &Vec<(String, TomlValue)>) -> (r: Result<JsonValue, AppError>)
    ensures
        match kimi_live(table_view(top@)) {
            Some(l) => r matches Ok(v) && v@ == kimi_live_json(l),
            None => r matches Err(e) && kimi_no_default_model(e),
        },
{
    let alias = trimmed_str_or(table_get(top, "default_model"), "");
    proof {
        reveal_strlit("");
        assert(""@ =~= Seq::<char>::empty());
    }
    if alias.as_str().is_empty() {
        return Err(
            AppError::localized(
                "provider.kimicode.default_model.missing",
                "Kimi Code 配置缺少 default_model".to_owned(),
                "Kimi Code configuration is missing default_model".to_owned(),
            ),
        );
    }
    let models = as_table_opt(table_get(top, "models"));
    let model_entry = as_table_opt(tget_opt(models, alias.as_str()));
    let key = trimmed_str_or(tget_opt(model_entry, "provider"), "");
    let model_id = trimmed_str_or(tget_opt(model_entry, "model"), "");
    let max = match tget_opt(model_entry, "max_context_size") {
        Some(v) => match v.as_integer() {
            Some(n) => if n > 0 {
                n
            } else {
                DEFAULT_MAX_CONTEXT_SIZE
            },
            None => DEFAULT_MAX_CONTEXT_SIZE,
        },
        None => DEFAULT_MAX_CONTEXT_SIZE,
    };
    let providers = as_table_opt(table_get(top, "providers"));
    let provider_entry = as_table_opt(tget_opt(providers, key.as_str()));
    let provider_type = trimmed_str_or(tget_opt(provider_entry, "type"), "kimi");
    let base_url = trimmed_str_or(tget_opt(provider_entry, "base_url"), "");
    let api_key = trimmed_str_or(tget_opt(provider_entry, "api_key"), "");
    let ghost l = KimiLive {
        provider_key: key@,
        provider_type: provider_type@,
        base_url: base_url@,
        api_key: api_key@,
        model_alias: alias@,
        model_id: model_id@,
        max_context_size: max,
    };
    let number = if max >= 0 {
        JsonNumber::PosInt(max as u64)
    } else {
        JsonNumber::NegInt(max)
    };
    let mut out: Vec<(String, JsonValue)> = Vec::new();
    out.push(("providerKey".to_owned(), JsonValue::String(key)));
    out.push(("type".to_owned(), JsonValue::String(provider_type)));
    out.push(("baseUrl".to_owned(), JsonValue::String(base_url)));
    out.push(("apiKey".to_owned(), JsonValue::String(api_key)));
    out.push(("modelAlias".to_owned(), JsonValue::String(alias)));
    out.push(("modelId".to_owned(), JsonValue::String(model_id)));
    out.push(("maxContextSize".to_owned(), JsonValue::Number(number)));
    proof {
        lemma_object_view(out);
        assert(entries_view(out@) =~= kimi_live_json(l)->Obj_0);
    }
    Ok(JsonValue::Object(out))
}

/// `read_kimicode_live_settings` on the text of `config.toml`: the settings
/// snapshot.
pub fn read_kimicode_live_settings(text: &str) -> (r: Result<JsonValue, AppError>)
    ensures
        match toml_parse_outcome(text@) {
            Err(m) => r matches Err(e) && kimi_invalid_toml(e, m),
            Ok(TomlV::Table(top)) => match kimi_live(top) {
                Some(l) => r matches Ok(v) && v@ == kimi_live_json(l),
                None => r matches Err(e) && kimi_no_default_model(e),
            },
            Ok(_) => r matches Err(e) && kimi_not_table(e),
        },
{
    let document = match parse_toml(text) {
        Ok(d) => d,
        Err(e) => return Err(e),
    };
    match document.as_table() {
        Some(top) => kimi_live_snapshot(top),
        None => Err(
            AppError::localized(
                "provider.kimicode.config.not_table",
                "Kimi Code 配置必须是 TOML 表结构".to_owned(),
                "Kimi Code configuration must be a TOML table".to_owned(),
            ),
        ),
    }
}

/// `kimicode_document`: the document of `config.toml` to edit; a new empty
/// document when there is no file.
pub fn kimicode_document(existing_text: Option<&str>) -> (r: Result<toml_edit::DocumentMut, AppError>)
    ensures
        match existing_text {
            None => r matches Ok(d) && toml_doc_items(d) == Seq::<(Seq<char>, TomlV)>::empty()
                && toml_doc_table_keys(d) == Set::<Seq<char>>::empty(),
            Some(t) => match toml_doc_parse_outcome(t@) {
                Ok(p) => r matches Ok(d) && toml_doc_items(d) == p.0 && toml_doc_table_keys(d)
                    == p.1,
                Err(m) => r matches Err(e) && kimi_invalid_toml(e, m),
            },
        },
{
    match existing_text {
        None => Ok(toml_document_new()),
        Some(t) => match parse_toml_document(t) {
            Ok(d) => Ok(d),
            Err(m) => Err(invalid_toml_error(m.as_str())),
        },
    }
}

/// The maximum context size that the settings ask for: `maxContextSize` when
/// it is a positive integer, else the default.
pub open spec fn kimi_max_context(s: JsonV) -> i64 {
    match json_i64(json_get(s, "maxContextSize"@)) {
        Some(n) => if n > 0 {
            n
        } else {
            DEFAULT_MAX_CONTEXT_SIZE
        },
        None => DEFAULT_MAX_CONTEXT_SIZE,
    }
}

/// The pairs of the provider entry that a write puts under
/// `[providers.<providerKey>]`.
pub open spec fn kimi_provider_entry(s: JsonV) -> Seq<(Seq<char>, TomlV)> {
    let e1 = seq![("type"@, TomlV::Str(trimmed_field(s, "type"@)))];
    let base = trimmed_field(s, "baseUrl"@);
    let key = trimmed_field(s, "apiKey"@);
    let e2 = if base.len() > 0 {
        e1.push(("base_url"@, TomlV::Str(base)))
    } else {
        e1
    };
    if key.len() > 0 {
        e2.push(("api_key"@, TomlV::Str(key)))
    } else {
        e2
    }
}

/// The pairs of the model entry that a write puts under
/// `[models."<modelAlias>"]`.
pub open spec fn kimi_model_entry(s: JsonV) -> Seq<(Seq<char>, TomlV)> {
    seq![
        ("provider"@, TomlV::Str(trimmed_field(s, "providerKey"@))),
        ("model"@, TomlV::Str(trimmed_field(s, "modelId"@))),
        ("max_context_size"@, TomlV::Int(kimi_max_context(s))),
    ]
}

/// The items with an empty table under `key` where the key has no item.
pub open spec fn ensure_table_item(items: Seq<(Seq<char>, TomlV)>, key: Seq<char>) -> Seq<(Seq<char>, TomlV)> {
    if assoc_get(items, key) is Some {
        items
    } else {
        assoc_set(items, key, TomlV::Table(Seq::empty()))
    }
}

/// The items with `k` set to `v` inside the table under `t`.
pub open spec fn insert_in_table_item(
    items: Seq<(Seq<char>, TomlV)>,
    t: Seq<char>,
    k: Seq<char>,
    v: TomlV,
) -> Seq<(Seq<char>, TomlV)> {
    assoc_set(items, t, TomlV::Table(assoc_set(assoc_get(items, t)->0->Table_0, k, v)))
}

/// The top-level items of `config.toml` after a provider is written: its
/// provider entry, its model entry, and `default_model` set to its alias.
pub open spec fn kimi_items_written(items: Seq<(Seq<char>, TomlV)>, s: JsonV) -> Seq<(Seq<char>, TomlV)> {
    let i1 = ensure_table_item(items, "providers"@);
    let i2 = insert_in_table_item(
        i1,
        "providers"@,
        trimmed_field(s, "providerKey"@),
        TomlV::Table(table_of(kimi_provider_entry(s))),
    );
    let i3 = ensure_table_item(i2, "models"@);
    let i4 = insert_in_table_item(
        i3,
        "models"@,
        trimmed_field(s, "modelAlias"@),
        TomlV::Table(table_of(kimi_model_entry(s))),
    );
    assoc_set(i4, "default_model"@, TomlV::Str(trimmed_field(s, "modelAlias"@)))
}

/// `providers` and `models` each have no item or a table item (which the
/// write then extends).
pub open spec fn kimi_slots_ok(items: Seq<(Seq<char>, TomlV)>, table_keys: Set<Seq<char>>) -> bool {
    &&& (assoc_get(items, "providers"@) is None || (table_keys.contains("providers"@) && assoc_get(
        items,
        "providers"@,
    ) matches Some(TomlV::Table(_))))
    &&& (assoc_get(items, "models"@) is None || (table_keys.contains("models"@) && assoc_get(
        items,
        "models"@,
    ) matches Some(TomlV::Table(_))))
}

/// Whether the document can take a provider: `providers` and `models` are
/// each absent or a table.
pub fn kimicode_slots_are_tables(doc: &toml_edit::DocumentMut) -> (r: bool)
    ensures
        r == kimi_slots_ok(toml_doc_items(*doc), toml_doc_table_keys(*doc)),
{
    let p = !toml_doc_contains_key(doc, "providers") || toml_doc_contains_table(doc, "providers");
    let m = !toml_doc_contains_key(doc, "models") || toml_doc_contains_table(doc, "models");
    p && m
}

fn ensure_table(doc: &mut toml_edit::DocumentMut, key: &str)
    ensures
        toml_doc_items(*final(doc)) == ensure_table_item(toml_doc_items(*old(doc)), key@),
        assoc_get(toml_doc_items(*old(doc)), key@) is None ==> toml_doc_table_keys(*final(doc))
            == toml_doc_table_keys(*old(doc)).insert(key@),
        assoc_get(toml_doc_items(*old(doc)), key@) is Some ==> toml_doc_table_keys(*final(doc))
            == toml_doc_table_keys(*old(doc)),
{
    if !toml_doc_contains_key(doc, key) {
        toml_doc_insert_table(doc, key);
    }
}

/// `write_kimicode_provider_live` on the settings of a provider and the
/// document of `config.toml`: validate, write the provider entry, the model
/// entry and `default_model`, keeping every other part of the document, and
/// give the document's new text.
pub fn write_kimicode_provider_live(settings: &JsonValue, doc: &mut toml_edit::DocumentMut) -> (r: Result<String, AppError>)
    requires
        kimi_settings_valid(settings@) ==> kimi_slots_ok(
            toml_doc_items(*old(doc)),
            toml_doc_table_keys(*old(doc)),
        ),
    ensures
        !kimi_settings_valid(settings@) ==> (r matches Err(e) && if !(settings@ is Obj) {
            kimi_not_object(e)
        } else {
            kimi_first_missing(settings@) matches Some(f) && kimi_missing_field(e, f)
        }) && toml_doc_items(*final(doc)) == toml_doc_items(*old(doc)),
        kimi_settings_valid(settings@) ==> r is Ok && toml_doc_items(*final(doc))
            == kimi_items_written(toml_doc_items(*old(doc)), settings@),
        r matches Ok(t) ==> t@ == toml_doc_text(*final(doc)),
{
    match validate_kimicode_settings(settings) {
        Err(e) => return Err(e),
        Ok(()) => {},
    }
    proof {
        reveal_strlit("providers");
        reveal_strlit("models");
        reveal_strlit("default_model");
        reveal_strlit("type");
        reveal_strlit("base_url");
        reveal_strlit("api_key");
    }
    let provider_key = crate::dsh_config::str_field(settings, "providerKey");
    let provider_type = crate::dsh_config::str_field(settings, "type");
    let base_url = crate::dsh_config::str_field(settings, "baseUrl");
    let api_key = crate::dsh_config::str_field(settings, "apiKey");
    let model_alias = crate::dsh_config::str_field(settings, "modelAlias");
    let model_id = crate::dsh_config::str_field(settings, "modelId");
    let max_context_size = match settings.get("maxContextSize") {
        Some(v) => match v.as_i64() {
            Some(n) => if n > 0 {
                n
            } else {
                DEFAULT_MAX_CONTEXT_SIZE
            },
            None => DEFAULT_MAX_CONTEXT_SIZE,
        },
        None => DEFAULT_MAX_CONTEXT_SIZE,
    };
    let ghost items0 = toml_doc_items(*doc);
    let ghost keys0 = toml_doc_table_keys(*doc);
    assert("providers"@.len() != "models"@.len());
    ensure_table(doc, "providers");
    let mut entry: Vec<(String, TomlScalar)> = Vec::new();
    entry.push(("type".to_owned(), TomlScalar::Text(provider_type)));
    if !base_url.as_str().is_empty() {
        entry.push(("base_url".to_owned(), TomlScalar::Text(base_url)));
    }
    if !api_key.as_str().is_empty() {
        entry.push(("api_key".to_owned(), TomlScalar::Text(api_key)));
    }
    assert(scalars_view(entry@) =~= kimi_provider_entry(settings@));
    toml_doc_insert_in_table(doc, "providers", provider_key.as_str(), &entry);
    proof {
    crate::assoc::lemma_assoc_get_set_other(
        ensure_table_item(items0, "providers"@),
        "providers"@,
        TomlV::Table(
            assoc_set(
                assoc_get(ensure_table_item(items0, "providers"@), "providers"@)->0->Table_0,
                provider_key@,
                TomlV::Table(table_of(kimi_provider_entry(settings@))),
            ),
        ),
        "models"@,
    );
    if assoc_get(items0, "providers"@) is None {
        crate::assoc::lemma_assoc_get_set_other(items0, "providers"@, TomlV::Table(Seq::empty()), "models"@);
    }
    }
    ensure_table(doc, "models");
    let mut mentry: Vec<(String, TomlScalar)> = Vec::new();
    mentry.push(("provider".to_owned(), TomlScalar::Text(provider_key)));
    mentry.push(("model".to_owned(), TomlScalar::Text(model_id)));
    mentry.push(("max_context_size".to_owned(), TomlScalar::Integer(max_context_size)));
    assert(scalars_view(mentry@) =~= kimi_model_entry(settings@));
    toml_doc_insert_in_table(doc, "models", model_alias.as_str(), &mentry);
    let alias_value = TomlScalar::Text(model_alias);
    toml_doc_insert_value(doc, "default_model", &alias_value);
    Ok(toml_document_text(doc))
}

pub open spec fn kimi_mcp_invalid_json(e: AppError, m: Seq<char>) -> bool {
    is_localized(
        e,
        "provider.kimicode.mcp.invalid_json"@,
        "Kimi Code mcp.json 格式错误: "@ + m,
        "Invalid Kimi Code mcp.json: "@ + m,
    )
}

pub open spec fn kimi_mcp_not_object(e: AppError) -> bool {
    is_localized(
        e,
        "provider.kimicode.mcp.not_object"@,
        "Kimi Code mcp.json 必须是 JSON 对象"@,
        "Kimi Code mcp.json must be a JSON object"@,
    )
}

fn mcp_invalid_json_error(m: &str) -> (e: AppError)
    ensures
        kimi_mcp_invalid_json(e, m@),
{
    let zh = concat("Kimi Code mcp.json 格式错误: ", m);
    let en = concat("Invalid Kimi Code mcp.json: ", m);
    AppError::localized("provider.kimicode.mcp.invalid_json", zh, en)
}

/// The document of `mcp.json`: none when there is no file, the empty object
/// when it is blank, else what serde_json parses.
pub open spec fn mcp_document(existing: Option<Seq<char>>) -> Result<JsonV, Seq<char>> {
    match existing {
        None => Ok(JsonV::Obj(Seq::empty())),
        Some(t) => if is_blank(t) {
            Ok(JsonV::Obj(Seq::empty()))
        } else {
            json_parse_outcome(t)
        },
    }
}

/// The servers map of an `mcp.json` document: the object under
/// `mcpServers`, or no servers.
pub open spec fn mcp_servers_of(doc: JsonV) -> Seq<(Seq<char>, JsonV)> {
    match json_get(doc, "mcpServers"@) {
        Some(JsonV::Obj(e)) => e,
        _ => Seq::empty(),
    }
}

fn read_mcp_document(existing_text: Option<&str>) -> (r: Result<JsonValue, AppError>)
    ensures
        match mcp_document(
            match existing_text {
                Some(t) => Some(t@),
                None => None,
            },
        ) {
            Ok(d) => r matches Ok(v) && v@ == d,
            Err(m) => r matches Err(e) && kimi_mcp_invalid_json(e, m),
        },
{
    match existing_text {
        None => Ok(crate::json::empty_object()),
        Some(t) => {
            if str_is_blank(t) {
                Ok(crate::json::empty_object())
            } else {
                match parse_json(t) {
                    Ok(v) => Ok(v),
                    Err(m) => Err(mcp_invalid_json_error(m.as_str())),
                }
            }
        },
    }
}

/// `read_mcp_servers_map` on the text of `mcp.json`, where there is the file:
/// the `mcpServers` object.
pub fn read_mcp_servers_map(existing_text: Option<&str>) -> (r: Result<Vec<(String, JsonValue)>, AppError>)
    ensures
        match mcp_document(
            match existing_text {
                Some(t) => Some(t@),
                None => None,
            },
        ) {
            Ok(d) => r matches Ok(m) && entries_view(m@) == mcp_servers_of(d),
            Err(m) => r matches Err(e) && kimi_mcp_invalid_json(e, m),
        },
{
    let doc = match read_mcp_document(existing_text) {
        Ok(d) => d,
        Err(e) => return Err(e),
    };
    match doc.get("mcpServers") {
        Some(v) => match v.as_object() {
            Some(e) => Ok(crate::json::copy_entries(e)),
            None => {
                let r: Vec<(String, JsonValue)> = Vec::new();
                assert(entries_view(r@) =~= Seq::empty());
                Ok(r)
            },
        },
        None => {
            let r: Vec<(String, JsonValue)> = Vec::new();
            assert(entries_view(r@) =~= Seq::empty());
            Ok(r)
        },
    }
}

/// The `mcp.json` document with `mcpServers` set to the servers.
pub open spec fn mcp_document_with(doc: JsonV, servers: Seq<(Seq<char>, JsonV)>) -> JsonV {
    JsonV::Obj(assoc_set(doc->Obj_0, "mcpServers"@, JsonV::Obj(servers)))
}

/// `set_mcp_servers_map` on the text of `mcp.json`, where there is the file:
/// the new text, with `mcpServers` replaced and every other key kept.
pub fn set_mcp_servers_map(existing_text: Option<&str>, servers: &Vec<(String, JsonValue)>) -> (r: Result<String, AppError>)
    ensures
        match mcp_document(
            match existing_text {
                Some(t) => Some(t@),
                None => None,
            },
        ) {
            Err(m) => r matches Err(e) && kimi_mcp_invalid_json(e, m),
            Ok(d) => if d is Obj {
                r matches Ok(t) && t@ == match json_pretty_outcome(
                    mcp_document_with(d, entries_view(servers@)),
                ) {
                    Some(x) => x,
                    None => Seq::empty(),
                }
            } else {
                r matches Err(e) && kimi_mcp_not_object(e)
            },
        },
{
    let doc = match read_mcp_document(existing_text) {
        Ok(d) => d,
        Err(e) => return Err(e),
    };
    match doc {
        JsonValue::Object(mut entries) => {
            proof {
                lemma_object_view(entries);
            }
            let ghost before = entries_view(entries@);
            let copy = crate::json::copy_entries(servers);
            proof {
                lemma_object_view(copy);
            }
            crate::json::entries_set(&mut entries, "mcpServers", JsonValue::Object(copy));
            proof {
                lemma_object_view(entries);
            }
            let root = JsonValue::Object(entries);
            match json_pretty(&root) {
                Some(t) => Ok(t),
                None => Ok(String::new()),
            }
        },
        _ => Err(
            AppError::localized(
                "provider.kimicode.mcp.not_object",
                "Kimi Code mcp.json 必须是 JSON 对象".to_owned(),
                "Kimi Code mcp.json must be a JSON object".to_owned(),
            ),
        ),
    }
}

/// `providers` and `models` each have no item or a table.
pub open spec fn kimi_tables_ok(items: Seq<(Seq<char>, TomlV)>) -> bool {
    &&& (assoc_get(items, "providers"@) is None || assoc_get(items, "providers"@) matches Some(
        TomlV::Table(_),
    ))
    &&& (assoc_get(items, "models"@) is None || assoc_get(items, "models"@) matches Some(
        TomlV::Table(_),
    ))
}

proof fn lemma_kimi_literals()
    ensures
        "providers"@ != "models"@,
        "providers"@ != "default_model"@,
        "models"@ != "default_model"@,
        "type"@ != "base_url"@,
        "type"@ != "api_key"@,
        "base_url"@ != "api_key"@,
        "provider"@ != "model"@,
        "provider"@ != "max_context_size"@,
        "model"@ != "max_context_size"@,
{
    reveal_strlit("providers");
    reveal_strlit("models");
    reveal_strlit("default_model");
    reveal_strlit("type");
    reveal_strlit("base_url");
    reveal_strlit("api_key");
    reveal_strlit("provider");
    reveal_strlit("model");
    reveal_strlit("max_context_size");
    assert("providers"@.len() != "models"@.len());
    assert("providers"@.len() != "default_model"@.len());
    assert("models"@.len() != "default_model"@.len());
    assert("type"@.len() != "base_url"@.len());
    assert("type"@.len() != "api_key"@.len());
    assert("base_url"@.len() != "api_key"@.len());
    assert("provider"@.len() != "model"@.len());
    assert("provider"@.len() != "max_context_size"@.len());
    assert("model"@.len() != "max_context_size"@.len());
}

/// The table under `t` after the write, in terms of the table before it.
proof fn lemma_table_after_insert(
    items: Seq<(Seq<char>, TomlV)>,
    t: Seq<char>,
    k: Seq<char>,
    v: TomlV,
)
    requires
        assoc_get(items, t) is None || assoc_get(items, t) matches Some(TomlV::Table(_)),
    ensures
        ({
            let before = match assoc_get(items, t) {
                Some(TomlV::Table(e)) => e,
                _ => Seq::empty(),
            };
            let after = insert_in_table_item(ensure_table_item(items, t), t, k, v);
            &&& ttable(assoc_get(after, t)) == Some(assoc_set(before, k, v))
            &&& forall|o: Seq<char>| o != t ==> #[trigger] assoc_get(after, o) == assoc_get(items, o)
        }),
{
    let i1 = ensure_table_item(items, t);
    if assoc_get(items, t) is None {
        crate::assoc::lemma_assoc_get_set_same(items, t, TomlV::Table(Seq::empty()));
        assert forall|o: Seq<char>| o != t implies #[trigger] assoc_get(i1, o) == assoc_get(items, o) by {
            crate::assoc::lemma_assoc_get_set_other(items, t, TomlV::Table(Seq::empty()), o);
        }
    }
    let before = assoc_get(i1, t)->0->Table_0;
    crate::assoc::lemma_assoc_get_set_same(i1, t, TomlV::Table(assoc_set(before, k, v)));
    assert forall|o: Seq<char>| o != t implies #[trigger] assoc_get(
        insert_in_table_item(i1, t, k, v),
        o,
    ) == assoc_get(items, o) by {
        crate::assoc::lemma_assoc_get_set_other(i1, t, TomlV::Table(assoc_set(before, k, v)), o);
    }
}

proof fn lemma_kimi_provider_entry_lookups(s: JsonV)
    ensures
        tstr(assoc_get(kimi_provider_entry(s), "type"@)) == Some(trimmed_field(s, "type"@)),
        trimmed_field(s, "baseUrl"@).len() > 0 ==> tstr(assoc_get(kimi_provider_entry(s), "base_url"@))
            == Some(trimmed_field(s, "baseUrl"@)),
        trimmed_field(s, "baseUrl"@).len() == 0 ==> assoc_get(kimi_provider_entry(s), "base_url"@)
            is None,
        trimmed_field(s, "apiKey"@).len() > 0 ==> tstr(assoc_get(kimi_provider_entry(s), "api_key"@))
            == Some(trimmed_field(s, "apiKey"@)),
        trimmed_field(s, "apiKey"@).len() == 0 ==> assoc_get(kimi_provider_entry(s), "api_key"@)
            is None,
{
    lemma_kimi_literals();
    let pe = kimi_provider_entry(s);
    assert(pe[0].0 == "type"@);
    crate::assoc::lemma_assoc_get_at(pe, "type"@, 0);
    let n = pe.len() as int;
    let base = trimmed_field(s, "baseUrl"@);
    let api = trimmed_field(s, "apiKey"@);
    if base.len() > 0 {
        assert(pe[1].0 == "base_url"@);
        crate::assoc::lemma_assoc_get_at(pe, "base_url"@, 1);
    } else {
        assert(crate::assoc::no_key_before(pe, "base_url"@, n));
        crate::assoc::lemma_assoc_get_none(pe, "base_url"@);
    }
    if api.len() > 0 {
        assert(pe[n - 1].0 == "api_key"@);
        assert(crate::assoc::no_key_before(pe, "api_key"@, n - 1));
        crate::assoc::lemma_assoc_get_at(pe, "api_key"@, n - 1);
    } else {
        assert(crate::assoc::no_key_before(pe, "api_key"@, n));
        crate::assoc::lemma_assoc_get_none(pe, "api_key"@);
    }
}

/// Writing a provider and then reading the live settings gives back exactly
/// the provider: its key, type, base URL and API key (empty where the settings
/// have none), model alias and id, and the context size it asked for (the
/// default where it asked for none or for one that is not positive).
pub proof fn law_kimi_write_then_read(items: Seq<(Seq<char>, TomlV)>, s: JsonV)
    requires
        kimi_settings_valid(s),
        kimi_tables_ok(items),
    ensures
        kimi_live(kimi_items_written(items, s)) == Some(
            KimiLive {
                provider_key: trimmed_field(s, "providerKey"@),
                provider_type: trimmed_field(s, "type"@),
                base_url: trimmed_field(s, "baseUrl"@),
                api_key: trimmed_field(s, "apiKey"@),
                model_alias: trimmed_field(s, "modelAlias"@),
                model_id: trimmed_field(s, "modelId"@),
                max_context_size: kimi_max_context(s),
            },
        ),
{
    lemma_kimi_literals();
    let key = trimmed_field(s, "providerKey"@);
    let alias = trimmed_field(s, "modelAlias"@);
    let pe = kimi_provider_entry(s);
    let me = kimi_model_entry(s);
    assert(crate::assoc::keys_distinct(pe));
    assert(crate::assoc::keys_distinct(me));
    crate::toml_tree::lemma_table_of_distinct(pe);
    crate::toml_tree::lemma_table_of_distinct(me);
    let i2 = insert_in_table_item(ensure_table_item(items, "providers"@), "providers"@, key, TomlV::Table(pe));
    lemma_table_after_insert(items, "providers"@, key, TomlV::Table(pe));
    assert(assoc_get(i2, "models"@) == assoc_get(items, "models"@));
    let i4 = insert_in_table_item(ensure_table_item(i2, "models"@), "models"@, alias, TomlV::Table(me));
    lemma_table_after_insert(i2, "models"@, alias, TomlV::Table(me));
    assert(assoc_get(i4, "providers"@) == assoc_get(i2, "providers"@));
    let w = assoc_set(i4, "default_model"@, TomlV::Str(alias));
    assert(w == kimi_items_written(items, s));
    crate::assoc::lemma_assoc_get_set_same(i4, "default_model"@, TomlV::Str(alias));
    crate::assoc::lemma_assoc_get_set_other(i4, "default_model"@, TomlV::Str(alias), "models"@);
    crate::assoc::lemma_assoc_get_set_other(i4, "default_model"@, TomlV::Str(alias), "providers"@);
    let mbefore = match assoc_get(i2, "models"@) {
        Some(TomlV::Table(e)) => e,
        _ => Seq::empty(),
    };
    crate::assoc::lemma_assoc_get_set_same(mbefore, alias, TomlV::Table(me));
    let pbefore = match assoc_get(items, "providers"@) {
        Some(TomlV::Table(e)) => e,
        _ => Seq::empty(),
    };
    crate::assoc::lemma_assoc_get_set_same(pbefore, key, TomlV::Table(pe));
    crate::text::lemma_trimmed_idempotent(crate::json::json_str(json_get(s, "modelAlias"@)).unwrap_or(Seq::empty()));
    crate::text::lemma_trimmed_idempotent(crate::json::json_str(json_get(s, "providerKey"@)).unwrap_or(Seq::empty()));
    crate::text::lemma_trimmed_idempotent(crate::json::json_str(json_get(s, "modelId"@)).unwrap_or(Seq::empty()));
    crate::text::lemma_trimmed_idempotent(crate::json::json_str(json_get(s, "type"@)).unwrap_or(Seq::empty()));
    crate::text::lemma_trimmed_idempotent(crate::json::json_str(json_get(s, "baseUrl"@)).unwrap_or(Seq::empty()));
    crate::text::lemma_trimmed_idempotent(crate::json::json_str(json_get(s, "apiKey"@)).unwrap_or(Seq::empty()));
    assert(trimmed(alias) == alias);
    assert(trimmed(key) == key);
    let l = kimi_live(w)->0;
    let me1 = me.drop_first();
    let me2 = me1.drop_first();
    assert(me1 =~= seq![me[1], me[2]]);
    assert(me2 =~= seq![me[2]]);
    assert(assoc_get(me2, "max_context_size"@) == Some(me[2].1));
    assert(assoc_get(me1, "max_context_size"@) == Some(me[2].1));
    assert(assoc_get(me1, "model"@) == Some(me[1].1));
    lemma_kimi_provider_entry_lookups(s);
    assert(tstr(tget(Some(me), "model"@)) == Some(trimmed_field(s, "modelId"@)));
    assert(tint(tget(Some(me), "max_context_size"@)) == Some(kimi_max_context(s)));
    assert(tstr(tget(Some(me), "provider"@)) == Some(key));
    assert(trimmed(Seq::<char>::empty()) == Seq::<char>::empty());
    assert(kimi_live(w) is Some);
    assert(l.model_alias == alias);
    assert(l.provider_key == key);
    assert(l.model_id == trimmed_field(s, "modelId"@));
    assert(l.max_context_size == kimi_max_context(s));
    assert(l.provider_type == trimmed_field(s, "type"@));
    assert(l.base_url == trimmed_field(s, "baseUrl"@));
    assert(l.api_key == trimmed_field(s, "apiKey"@));
}

/// Writing a provider keeps every top-level section other than `providers`,
/// `models` and `default_model`, every other provider under `providers`,
/// and every other model under `models`.
pub proof fn law_kimi_write_preserves_other_sections(
    items: Seq<(Seq<char>, TomlV)>,
    s: JsonV,
    section: Seq<char>,
    other_provider: Seq<char>,
    other_model: Seq<char>,
)
    requires
        kimi_tables_ok(items),
        section != "providers"@,
        section != "models"@,
        section != "default_model"@,
        other_provider != trimmed_field(s, "providerKey"@),
        other_model != trimmed_field(s, "modelAlias"@),
    ensures
        assoc_get(kimi_items_written(items, s), section) == assoc_get(items, section),
        tget(ttable(assoc_get(kimi_items_written(items, s), "providers"@)), other_provider) == tget(
            ttable(assoc_get(items, "providers"@)),
            other_provider,
        ),
        tget(ttable(assoc_get(kimi_items_written(items, s), "models"@)), other_model) == tget(
            ttable(assoc_get(items, "models"@)),
            other_model,
        ),
{
    lemma_kimi_literals();
    let key = trimmed_field(s, "providerKey"@);
    let alias = trimmed_field(s, "modelAlias"@);
    let pe = TomlV::Table(table_of(kimi_provider_entry(s)));
    let me = TomlV::Table(table_of(kimi_model_entry(s)));
    let i2 = insert_in_table_item(ensure_table_item(items, "providers"@), "providers"@, key, pe);
    lemma_table_after_insert(items, "providers"@, key, pe);
    assert(assoc_get(i2, "models"@) == assoc_get(items, "models"@));
    assert(assoc_get(i2, section) == assoc_get(items, section));
    let i4 = insert_in_table_item(ensure_table_item(i2, "models"@), "models"@, alias, me);
    lemma_table_after_insert(i2, "models"@, alias, me);
    assert(assoc_get(i4, "providers"@) == assoc_get(i2, "providers"@));
    assert(assoc_get(i4, section) == assoc_get(i2, section));
    crate::assoc::lemma_assoc_get_set_other(i4, "default_model"@, TomlV::Str(alias), "models"@);
    crate::assoc::lemma_assoc_get_set_other(i4, "default_model"@, TomlV::Str(alias), "providers"@);
    crate::assoc::lemma_assoc_get_set_other(i4, "default_model"@, TomlV::Str(alias), section);
    let pbefore = match assoc_get(items, "providers"@) {
        Some(TomlV::Table(e)) => e,
        _ => Seq::empty(),
    };
    crate::assoc::lemma_assoc_get_set_other(pbefore, key, pe, other_provider);
    let mbefore = match assoc_get(items, "models"@) {
        Some(TomlV::Table(e)) => e,
        _ => Seq::empty(),
    };
    crate::assoc::lemma_assoc_get_set_other(mbefore, alias, me, other_model);
}

/// Reading the servers of an `mcp.json` document in which the servers were
/// just set gives back exactly those servers, and every other key of the
/// document keeps its value.
pub proof fn law_mcp_set_then_read(doc: JsonV, servers: Seq<(Seq<char>, JsonV)>, other: Seq<char>)
    requires
        doc is Obj,
    ensures
        mcp_servers_of(mcp_document_with(doc, servers)) == servers,
        other != "mcpServers"@ ==> json_get(mcp_document_with(doc, servers), other) == json_get(
            doc,
            other,
        ),
{
    crate::assoc::lemma_assoc_get_set_same(doc->Obj_0, "mcpServers"@, JsonV::Obj(servers));
    if other != "mcpServers"@ {
        crate::assoc::lemma_assoc_get_set_other(
            doc->Obj_0,
            "mcpServers"@,
            JsonV::Obj(servers),
            other,
        );
    }
}

/// The table written under `models.<alias>` is the model entry of the
/// settings.
proof fn lemma_kimi_written_model_entry(items: Seq<(Seq<char>, TomlV)>, s: JsonV)
    requires
        kimi_settings_valid(s),
        kimi_tables_ok(items),
    ensures
        ttable(
            tget(
                ttable(assoc_get(kimi_items_written(items, s), "models"@)),
                trimmed_field(s, "modelAlias"@),
            ),
        ) == Some(kimi_model_entry(s)),
{
    lemma_kimi_literals();
    let key = trimmed_field(s, "providerKey"@);
    let alias = trimmed_field(s, "modelAlias"@);
    let pe = kimi_provider_entry(s);
    let me = kimi_model_entry(s);
    assert(crate::assoc::keys_distinct(pe));
    assert(crate::assoc::keys_distinct(me));
    crate::toml_tree::lemma_table_of_distinct(pe);
    crate::toml_tree::lemma_table_of_distinct(me);
    let i2 = insert_in_table_item(ensure_table_item(items, "providers"@), "providers"@, key, TomlV::Table(pe));
    lemma_table_after_insert(items, "providers"@, key, TomlV::Table(pe));
    assert(assoc_get(i2, "models"@) == assoc_get(items, "models"@));
    let i4 = insert_in_table_item(ensure_table_item(i2, "models"@), "models"@, alias, TomlV::Table(me));
    lemma_table_after_insert(i2, "models"@, alias, TomlV::Table(me));
    let w = assoc_set(i4, "default_model"@, TomlV::Str(alias));
    assert(w == kimi_items_written(items, s));
    crate::assoc::lemma_assoc_get_set_other(i4, "default_model"@, TomlV::Str(alias), "models"@);
    let mbefore = match assoc_get(i2, "models"@) {
        Some(TomlV::Table(e)) => e,
        _ => Seq::empty(),
    };
    crate::assoc::lemma_assoc_get_set_same(mbefore, alias, TomlV::Table(me));
}

/// The context size written for the model is the one the settings ask for,
/// wherever that is a positive integer, and it reads back so; a missing,
/// non-integer or non-positive size is written as the default.
pub proof fn law_kimi_write_keeps_context_size(items: Seq<(Seq<char>, TomlV)>, s: JsonV)
    requires
        kimi_settings_valid(s),
        kimi_tables_ok(items),
    ensures
        ({
            let written = kimi_items_written(items, s);
            let entry = ttable(
                tget(ttable(assoc_get(written, "models"@)), trimmed_field(s, "modelAlias"@)),
            );
            let asked = json_i64(json_get(s, "maxContextSize"@));
            &&& (asked matches Some(n) && n > 0) ==> tget(entry, "max_context_size"@) == Some(
                TomlV::Int(asked->0),
            )
            &&& (asked matches Some(n) && n > 0) ==> (kimi_live(written) matches Some(l)
                && l.max_context_size == asked->0)
            &&& !(asked matches Some(n) && n > 0) ==> tget(entry, "max_context_size"@) == Some(
                TomlV::Int(262144),
            )
        }),
{
    lemma_kimi_literals();
    lemma_kimi_written_model_entry(items, s);
    law_kimi_write_then_read(items, s);
    let me = kimi_model_entry(s);
    let me1 = me.drop_first();
    let me2 = me1.drop_first();
    assert(me1 =~= seq![me[1], me[2]]);
    assert(me2 =~= seq![me[2]]);
    assert(assoc_get(me2, "max_context_size"@) == Some(me[2].1));
    assert(assoc_get(me1, "max_context_size"@) == Some(me[2].1));
    assert(assoc_get(me, "max_context_size"@) == Some(me[2].1));
}

} // verus!
