//! DeepSeek Harness (`dsh`) live configuration.
//!
//! The harness keeps `settings.yaml`, where a provider route lives under
//! `llm-pi-ai.providers.<id>` and is selected by `agent-default-model`, and
//! `.credentials.yaml`, where the API key lives under `refs.<apiKeyEnv>`.
//! Reading and writing the files is the caller's; this module turns their text
//! into documents, documents into a provider settings snapshot, and a provider
//! into the documents to write.
use vstd::prelude::*;
use crate::assoc::{assoc_get, assoc_set};
use crate::error::{is_localized, AppError};
use crate::json::{entries_view, json_get, lemma_object_view, trimmed_field, JsonV, JsonValue};
use crate::paths::{join_path, joined, resolve_tool_dir, tool_dir};
use crate::text::{concat, is_blank, str_is_blank, str_trim, trimmed};
use crate::yaml::{
    child_entries, child_slot_is_mapping, child_slot_ok, copy_child_entries, copy_pairs,
    entries_get, entries_set, put_child, put_child_entries, replace_untagged, set_untagged, untag,
    yget, ykey, ymapping, ystr_or_empty, YamlNumber, YamlV, YamlValue,
};
use crate::yaml_text::{
    json_of_yaml, json_of_yaml_outcome, parse_yaml, yaml_of_json, yaml_of_json_outcome,
    yaml_parse_outcome, yaml_text_outcome, yaml_to_text,
};

verus! {

/// `get_dsh_dir`: the configured directory, else `$DSH_HOME` when it is not
/// blank, else `~/.dsh`.
pub fn get_dsh_dir(configured: Option<String>, env_dsh_home: Option<String>, home: &str) -> (r: String)
    ensures
        r@ == tool_dir(
            match configured {
                Some(c) => Some(c@),
                None => None,
            },
            match env_dsh_home {
                Some(v) => Some(v@),
                None => None,
            },
            home@,
            ".dsh"@,
        ),
{
    resolve_tool_dir(configured, env_dsh_home, home, ".dsh")
}

/// The settings document, `<dir>/settings.yaml`.
pub fn get_dsh_settings_path(dsh_dir: &str) -> (r: String)
    ensures
        r@ == joined(dsh_dir@, "settings.yaml"@),
{
    join_path(dsh_dir, "settings.yaml")
}

/// The credential store, `<dir>/.credentials.yaml`.
pub fn get_dsh_credentials_path(dsh_dir: &str) -> (r: String)
    ensures
        r@ == joined(dsh_dir@, ".credentials.yaml"@),
{
    join_path(dsh_dir, ".credentials.yaml")
}

/// The string under `key` of a JSON value, trimmed, or the empty string.
pub fn as_non_empty_str(value: Option<&JsonValue>) -> (r: String)
    ensures
        r@ == match value {
            Some(v) => match v@ {
                JsonV::Str(s) => trimmed(s),
                _ => Seq::empty(),
            },
            None => Seq::empty(),
        },
{
    match value {
        Some(v) => match v.as_str() {
            Some(s) => str_trim(s).to_owned(),
            None => String::new(),
        },
        None => String::new(),
    }
}

/// The trimmed string field `key` of a settings object, or the empty string.
pub fn str_field(settings: &JsonValue, key: &str) -> (r: String)
    ensures
        r@ == trimmed_field(settings@, key@),
{
    as_non_empty_str(settings.get(key))
}

/// The error for a missing field of the settings object.
pub open spec fn dsh_missing_field(e: AppError, field: Seq<char>) -> bool {
    is_localized(
        e,
        "provider.dsh.field.missing"@,
        "DeepSeek Harness 配置缺少有效的 "@ + field + " 字段"@,
        "DeepSeek Harness configuration is missing a valid "@ + field + " field"@,
    )
}

pub open spec fn dsh_not_object(e: AppError) -> bool {
    is_localized(
        e,
        "provider.dsh.settings.not_object"@,
        "DeepSeek Harness 配置必须是 JSON 对象"@,
        "DeepSeek Harness configuration must be a JSON object"@,
    )
}

/// The settings object is valid: an object with a non-blank `providerId` and
/// `defaultModel`.
pub open spec fn dsh_settings_valid(s: JsonV) -> bool {
    &&& s is Obj
    &&& trimmed_field(s, "providerId"@).len() > 0
    &&& trimmed_field(s, "defaultModel"@).len() > 0
}

fn missing_field_error(field: &str) -> (e: AppError)
    ensures
        dsh_missing_field(e, field@),
{
    let zh = concat(concat("DeepSeek Harness 配置缺少有效的 ", field).as_str(), " 字段");
    let en = concat(
        concat("DeepSeek Harness configuration is missing a valid ", field).as_str(),
        " field",
    );
    AppError::localized("provider.dsh.field.missing", zh, en)
}

/// Validate the provider-owned structured settings object: it must be an
/// object, then `providerId` and then `defaultModel` must be non-blank
/// strings; the first that fails is the error.
pub fn validate_dsh_settings(settings: &JsonValue) -> (r: Result<(), AppError>)
    ensures
        r is Ok <==> dsh_settings_valid(settings@),
        r matches Err(e) ==> if !(settings@ is Obj) {
            dsh_not_object(e)
        } else if trimmed_field(settings@, "providerId"@).len() == 0 {
            dsh_missing_field(e, "providerId"@)
        } else {
            dsh_missing_field(e, "defaultModel"@)
        },
{
    if !settings.is_object() {
        return Err(
            AppError::localized(
                "provider.dsh.settings.not_object",
                "DeepSeek Harness 配置必须是 JSON 对象".to_owned(),
                "DeepSeek Harness configuration must be a JSON object".to_owned(),
            ),
        );
    }
    let id = str_field(settings, "providerId");
    if id.as_str().is_empty() {
        return Err(missing_field_error("providerId"));
    }
    let model = str_field(settings, "defaultModel");
    if model.as_str().is_empty() {
        return Err(missing_field_error("defaultModel"));
    }
    Ok(())
}

/// Why a YAML text is not a document of this module.
pub enum DocProblem {
    Invalid(Seq<char>),
    NotMapping,
}

/// A YAML text as a document: the empty mapping for a blank text, else what
/// serde_yaml parses, which must be a mapping.
pub open spec fn yaml_mapping_doc(text: Seq<char>) -> Result<YamlV, DocProblem> {
    if is_blank(text) {
        Ok(YamlV::Mapping(Seq::empty()))
    } else {
        match yaml_parse_outcome(text) {
            Err(m) => Err(DocProblem::Invalid(m)),
            Ok(v) => if untag(v) is Mapping {
                Ok(v)
            } else {
                Err(DocProblem::NotMapping)
            },
        }
    }
}

/// The error reported for a document of this module that cannot be used.
pub open spec fn dsh_doc_error(e: AppError, p: DocProblem, label: Seq<char>) -> bool {
    match p {
        DocProblem::Invalid(m) => is_localized(
            e,
            "provider.dsh.config.invalid_yaml"@,
            "DeepSeek Harness "@ + label + " 格式错误: "@ + m,
            "Invalid DeepSeek Harness "@ + label + ": "@ + m,
        ),
        DocProblem::NotMapping => is_localized(
            e,
            "provider.dsh.config.not_mapping"@,
            "DeepSeek Harness "@ + label + " 必须是 YAML 映射"@,
            "DeepSeek Harness "@ + label + " must be a YAML mapping"@,
        ),
    }
}

/// `read_yaml_mapping` on the text of a file: the document, or the error for
/// it under `label`.
pub fn read_yaml_mapping(text: &str, label: &str) -> (r: Result<YamlValue, AppError>)
    ensures
        match yaml_mapping_doc(text@) {
            Ok(v) => r matches Ok(x) && x@ == v,
            Err(p) => r matches Err(e) && dsh_doc_error(e, p, label@),
        },
{
    if str_is_blank(text) {
        return Ok(crate::yaml::empty_mapping());
    }
    match parse_yaml(text) {
        Err(m) => {
            let zh = concat(
                concat(concat("DeepSeek Harness ", label).as_str(), " 格式错误: ").as_str(),
                m.as_str(),
            );
            let en = concat(
                concat(concat("Invalid DeepSeek Harness ", label).as_str(), ": ").as_str(),
                m.as_str(),
            );
            Err(AppError::localized("provider.dsh.config.invalid_yaml", zh, en))
        },
        Ok(v) => {
            if v.is_mapping() {
                Ok(v)
            } else {
                let zh = concat(concat("DeepSeek Harness ", label).as_str(), " 必须是 YAML 映射");
                let en = concat(
                    concat("DeepSeek Harness ", label).as_str(),
                    " must be a YAML mapping",
                );
                Err(AppError::localized("provider.dsh.config.not_mapping", zh, en))
            }
        },
    }
}

/// `Value::get` with a string key on an optional value.
pub open spec fn yget_in(o: Option<YamlV>, key: Seq<char>) -> Option<YamlV> {
    match o {
        Some(v) => yget(v, key),
        None => None,
    }
}

/// The mapping of the route of provider `id` in a settings document.
pub open spec fn dsh_route(root: YamlV, id: Seq<char>) -> Option<Seq<(YamlV, YamlV)>> {
    ymapping(yget_in(yget_in(yget(root, "llm-pi-ai"@), "providers"@), id))
}

/// The string under `key` in a route, or the empty string.
pub open spec fn route_field(route: Option<Seq<(YamlV, YamlV)>>, key: Seq<char>) -> Seq<char> {
    match route {
        Some(e) => ystr_or_empty(assoc_get(e, ykey(key))),
        None => Seq::empty(),
    }
}

/// The models of a route as JSON, or an empty array where there are none or
/// they do not convert.
pub open spec fn route_models(route: Option<Seq<(YamlV, YamlV)>>) -> JsonV {
    match route {
        Some(e) => match assoc_get(e, ykey("models"@)) {
            Some(m) => match json_of_yaml_outcome(m) {
                Ok(j) => j,
                Err(_) => JsonV::Arr(Seq::empty()),
            },
            None => JsonV::Arr(Seq::empty()),
        },
        None => JsonV::Arr(Seq::empty()),
    }
}

/// The key stored in the credential document under `refs.<env>`; empty when
/// `env` is empty or there is no usable credential document.
pub open spec fn credential_ref(creds: Option<YamlV>, env: Seq<char>) -> Seq<char> {
    if env.len() == 0 {
        Seq::empty()
    } else {
        match creds {
            Some(c) => ystr_or_empty(yget_in(yget(c, "refs"@), env)),
            None => Seq::empty(),
        }
    }
}

/// The live provider settings of the harness.
pub struct DshLive {
    pub provider_id: Seq<char>,
    pub display_name: Seq<char>,
    pub api: Seq<char>,
    pub base_url: Seq<char>,
    pub api_key_env: Seq<char>,
    pub api_key: Seq<char>,
    pub models: JsonV,
    pub default_model: Seq<char>,
}

/// The live settings in a settings document and an optional credential
/// document; nothing when `agent-default-model.provider` is blank.
pub open spec fn dsh_live(root: YamlV, creds: Option<YamlV>) -> Option<DshLive> {
    let id = trimmed(ystr_or_empty(yget_in(yget(root, "agent-default-model"@), "provider"@)));
    if id.len() == 0 {
        None
    } else {
        let route = dsh_route(root, id);
        let env = route_field(route, "apiKeyEnv"@);
        Some(
            DshLive {
                provider_id: id,
                display_name: route_field(route, "displayName"@),
                api: route_field(route, "api"@),
                base_url: route_field(route, "baseURL"@),
                api_key_env: env,
                api_key: credential_ref(creds, env),
                models: route_models(route),
                default_model: trimmed(
                    ystr_or_empty(yget_in(yget(root, "agent-default-model"@), "model"@)),
                ),
            },
        )
    }
}

/// The settings snapshot as the JSON object that the provider stores.
pub open spec fn dsh_live_json(l: DshLive) -> JsonV {
    JsonV::Obj(
        seq![
            ("providerId"@, JsonV::Str(l.provider_id)),
            ("displayName"@, JsonV::Str(l.display_name)),
            ("api"@, JsonV::Str(l.api)),
            ("baseURL"@, JsonV::Str(l.base_url)),
            ("apiKeyEnv"@, JsonV::Str(l.api_key_env)),
            ("apiKey"@, JsonV::Str(l.api_key)),
            ("models"@, l.models),
            ("defaultModel"@, JsonV::Str(l.default_model)),
        ],
    )
}

pub open spec fn dsh_no_default_provider(e: AppError) -> bool {
    is_localized(
        e,
        "provider.dsh.default_model.missing"@,
        "DeepSeek Harness 配置缺少 agent-default-model.provider"@,
        "DeepSeek Harness configuration is missing agent-default-model.provider"@,
    )
}

fn yget_opt<'a>(o: Option<&'a YamlValue>, key: &str) -> (r: Option<&'a YamlValue>)
    ensures
        match r {
            Some(x) => yget_in(
                match o {
                    Some(v) => Some(v@),
                    None => None,
                },
                key@,
            ) == Some(x@),
            None => yget_in(
                match o {
                    Some(v) => Some(v@),
                    None => None,
                },
                key@,
            ) is None,
        },
{
    match o {
        Some(v) => v.get(key),
        None => None,
    }
}

fn str_or_empty(o: Option<&YamlValue>) -> (r: String)
    ensures
        r@ == ystr_or_empty(
            match o {
                Some(v) => Some(v@),
                None => None,
            },
        ),
{
    match o {
        Some(v) => match v.as_str() {
            Some(s) => s.to_owned(),
            None => String::new(),
        },
        None => String::new(),
    }
}

fn route_str(route: Option<&Vec<(YamlValue, YamlValue)>>, key: &str) -> (r: String)
    ensures
        r@ == route_field(
            match route {
                Some(e) => Some(crate::yaml::pairs_view(e@)),
                None => None,
            },
            key@,
        ),
{
    match route {
        Some(e) => str_or_empty(crate::yaml::entries_get(e, key)),
        None => String::new(),
    }
}

/// The live settings of a settings document and an optional credential
/// document, as the JSON object the provider stores.
pub fn dsh_live_snapshot(root: &YamlValue, creds: Option<&YamlValue>) -> (r: Result<JsonValue, AppError>)
    ensures
        match dsh_live(
            root@,
            match creds {
                Some(c) => Some(c@),
                None => None,
            },
        ) {
            Some(l) => r matches Ok(v) && v@ == dsh_live_json(l),
            None => r matches Err(e) && dsh_no_default_provider(e),
        },
{
    let adm = root.get("agent-default-model");
    let id = str_trim(str_or_empty(yget_opt(adm, "provider")).as_str()).to_owned();
    if id.as_str().is_empty() {
        return Err(
            AppError::localized(
                "provider.dsh.default_model.missing",
                "DeepSeek Harness 配置缺少 agent-default-model.provider".to_owned(),
                "DeepSeek Harness configuration is missing agent-default-model.provider".to_owned(),
            ),
        );
    }
    let default_model = str_trim(str_or_empty(yget_opt(adm, "model")).as_str()).to_owned();
    let route_value = yget_opt(yget_opt(root.get("llm-pi-ai"), "providers"), id.as_str());
    let route = match route_value {
        Some(v) => v.as_mapping(),
        None => None,
    };
    let api = route_str(route, "api");
    let base_url = route_str(route, "baseURL");
    let display_name = route_str(route, "displayName");
    let api_key_env = route_str(route, "apiKeyEnv");
    let models_value = match route {
        Some(e) => crate::yaml::entries_get(e, "models"),
        None => None,
    };
    let models = match models_value {
        Some(m) => match json_of_yaml(m) {
            Ok(j) => j,
            Err(_) => crate::json::empty_array(),
        },
        None => crate::json::empty_array(),
    };
    let api_key = if api_key_env.as_str().is_empty() {
        String::new()
    } else {
        match creds {
            Some(c) => str_or_empty(yget_opt(c.get("refs"), api_key_env.as_str())),
            None => String::new(),
        }
    };
    let ghost l = DshLive {
        provider_id: id@,
        display_name: display_name@,
        api: api@,
        base_url: base_url@,
        api_key_env: api_key_env@,
        api_key: api_key@,
        models: models@,
        default_model: default_model@,
    };
    let mut out: Vec<(String, JsonValue)> = Vec::new();
    out.push(("providerId".to_owned(), JsonValue::String(id)));
    out.push(("displayName".to_owned(), JsonValue::String(display_name)));
    out.push(("api".to_owned(), JsonValue::String(api)));
    out.push(("baseURL".to_owned(), JsonValue::String(base_url)));
    out.push(("apiKeyEnv".to_owned(), JsonValue::String(api_key_env)));
    out.push(("apiKey".to_owned(), JsonValue::String(api_key)));
    out.push(("models".to_owned(), models));
    out.push(("defaultModel".to_owned(), JsonValue::String(default_model)));
    proof {
        lemma_object_view(out);
        assert(entries_view(out@) =~= dsh_live_json(l)->Obj_0);
    }
    Ok(JsonValue::Object(out))
}

/// `read_dsh_live_settings` on the text of `settings.yaml` and, where the
/// credential store could be read, its text: the settings snapshot.
pub fn read_dsh_live_settings(settings_text: &str, credentials_text: Option<&str>) -> (r: Result<
    JsonValue,
    AppError,
>)
    ensures
        match yaml_mapping_doc(settings_text@) {
            Err(p) => r matches Err(e) && dsh_doc_error(e, p, "settings.yaml"@),
            Ok(root) => match dsh_live(
                root,
                match credentials_text {
                    Some(t) => match yaml_mapping_doc(t@) {
                        Ok(c) => Some(c),
                        Err(_) => None,
                    },
                    None => None,
                },
            ) {
                Some(l) => r matches Ok(v) && v@ == dsh_live_json(l),
                None => r matches Err(e) && dsh_no_default_provider(e),
            },
        },
{
    let root = match read_yaml_mapping(settings_text, "settings.yaml") {
        Ok(v) => v,
        Err(e) => return Err(e),
    };
    let creds = match credentials_text {
        Some(t) => match read_yaml_mapping(t, ".credentials.yaml") {
            Ok(c) => Some(c),
            Err(_) => None,
        },
        None => None,
    };
    dsh_live_snapshot(&root, creds.as_ref())
}

/// The document of a file that may not exist: the empty mapping when there
/// is no file, else the file's text read as `read_yaml_mapping` reads it.
pub fn dsh_document(existing_text: Option<&str>, label: &str) -> (r: Result<YamlValue, AppError>)
    ensures
        match existing_text {
            None => r matches Ok(v) && v@ == YamlV::Mapping(Seq::empty()),
            Some(t) => match yaml_mapping_doc(t@) {
                Ok(v) => r matches Ok(x) && x@ == v,
                Err(p) => r matches Err(e) && dsh_doc_error(e, p, label@),
            },
        },
{
    match existing_text {
        Some(t) => read_yaml_mapping(t, label),
        None => Ok(crate::yaml::empty_mapping()),
    }
}

/// The models of a settings object: its `models` array, or none.
pub open spec fn dsh_models(s: JsonV) -> Seq<JsonV> {
    match json_get(s, "models"@) {
        Some(JsonV::Arr(a)) => a,
        _ => Seq::empty(),
    }
}

/// `e` with `key` set to the string `val`, where `val` is not empty.
pub open spec fn set_if_present(e: Seq<(YamlV, YamlV)>, key: Seq<char>, val: Seq<char>) -> Seq<(YamlV, YamlV)> {
    if val.len() > 0 {
        assoc_set(e, ykey(key), YamlV::Str(val))
    } else {
        e
    }
}

/// The route of a provider after the write: each non-empty field of the
/// settings set, and the models where there are some.
pub open spec fn dsh_route_written(route: Seq<(YamlV, YamlV)>, s: JsonV, models: Option<YamlV>) -> Seq<(YamlV, YamlV)> {
    let r1 = set_if_present(route, "displayName"@, trimmed_field(s, "displayName"@));
    let r2 = set_if_present(r1, "api"@, trimmed_field(s, "api"@));
    let r3 = set_if_present(r2, "baseURL"@, trimmed_field(s, "baseURL"@));
    let r4 = set_if_present(r3, "apiKeyEnv"@, trimmed_field(s, "apiKeyEnv"@));
    match models {
        Some(m) => assoc_set(r4, ykey("models"@), m),
        None => r4,
    }
}

/// The top-level pairs of the settings document after the route is written.
pub open spec fn dsh_top_with_route(top: Seq<(YamlV, YamlV)>, s: JsonV, models: Option<YamlV>) -> Seq<(YamlV, YamlV)> {
    let id = trimmed_field(s, "providerId"@);
    let llm = child_entries(top, "llm-pi-ai"@);
    let providers = child_entries(llm, "providers"@);
    let route = child_entries(providers, id);
    put_child(
        top,
        "llm-pi-ai"@,
        put_child(llm, "providers"@, put_child(providers, id, dsh_route_written(route, s, models))),
    )
}

/// The settings document after a provider is written: its route under
/// `llm-pi-ai.providers.<id>`, then `agent-default-model` set to it.
pub open spec fn dsh_settings_written(root: YamlV, s: JsonV, models: Option<YamlV>) -> YamlV {
    let top1 = dsh_top_with_route(untag(root)->Mapping_0, s, models);
    let d = child_entries(top1, "agent-default-model"@);
    let d2 = assoc_set(
        assoc_set(d, ykey("provider"@), YamlV::Str(trimmed_field(s, "providerId"@))),
        ykey("model"@),
        YamlV::Str(trimmed_field(s, "defaultModel"@)),
    );
    set_untagged(root, put_child(top1, "agent-default-model"@, d2))
}

/// The settings document can take the route of provider `id`: it is a
/// mapping, and each level on the way to the route, and
/// `agent-default-model`, is absent or a mapping.
pub open spec fn dsh_slots_ok(root: YamlV, id: Seq<char>) -> bool {
    &&& untag(root) is Mapping
    &&& child_slot_ok(untag(root)->Mapping_0, "llm-pi-ai"@)
    &&& child_slot_ok(child_entries(untag(root)->Mapping_0, "llm-pi-ai"@), "providers"@)
    &&& child_slot_ok(
        child_entries(child_entries(untag(root)->Mapping_0, "llm-pi-ai"@), "providers"@),
        id,
    )
    &&& child_slot_ok(untag(root)->Mapping_0, "agent-default-model"@)
}

pub proof fn lemma_put_child_other(top: Seq<(YamlV, YamlV)>, k: Seq<char>, e: Seq<(YamlV, YamlV)>, other: Seq<char>)
    requires
        other != k,
    ensures
        assoc_get(put_child(top, k, e), ykey(other)) == assoc_get(top, ykey(other)),
        child_entries(put_child(top, k, e), other) == child_entries(top, other),
        child_slot_ok(put_child(top, k, e), other) == child_slot_ok(top, other),
{
    assert(ykey(other) != ykey(k));
    match assoc_get(top, ykey(k)) {
        Some(v) => crate::assoc::lemma_assoc_get_set_other(top, ykey(k), set_untagged(v, e), ykey(other)),
        None => crate::assoc::lemma_assoc_get_set_other(top, ykey(k), YamlV::Mapping(e), ykey(other)),
    }
}

/// Whether the settings document can take the route of provider `id`.
pub fn dsh_slots_are_mappings(root: &YamlValue, provider_id: &str) -> (r: bool)
    ensures
        r == dsh_slots_ok(root@, provider_id@),
{
    match root.as_mapping() {
        None => false,
        Some(top) => {
            let llm = copy_child_entries(top, "llm-pi-ai");
            let providers = copy_child_entries(&llm, "providers");
            child_slot_is_mapping(top, "llm-pi-ai") && child_slot_is_mapping(&llm, "providers")
                && child_slot_is_mapping(&providers, provider_id) && child_slot_is_mapping(
                top,
                "agent-default-model",
            )
        },
    }
}

fn set_str_if_present(e: &mut Vec<(YamlValue, YamlValue)>, key: &str, val: String)
    ensures
        crate::yaml::pairs_view(final(e)@) == set_if_present(crate::yaml::pairs_view(old(e)@), key@, val@),
{
    if !val.as_str().is_empty() {
        entries_set(e, key, YamlValue::String(val));
    }
}

/// Write the route of a provider and select it, in a settings document.
pub fn apply_dsh_provider(root: YamlValue, settings: &JsonValue, models: Option<YamlValue>) -> (r: YamlValue)
    requires
        dsh_slots_ok(root@, trimmed_field(settings@, "providerId"@)),
    ensures
        r@ == dsh_settings_written(
            root@,
            settings@,
            match models {
                Some(m) => Some(m@),
                None => None,
            },
        ),
{
    let ghost mv = match &models {
        Some(m) => Some(m@),
        None => None,
    };
    let id = str_field(settings, "providerId");
    let top = match root.as_mapping() {
        Some(e) => copy_pairs(e),
        None => Vec::new(),
    };
    let llm = copy_child_entries(&top, "llm-pi-ai");
    let providers = copy_child_entries(&llm, "providers");
    let mut route = copy_child_entries(&providers, id.as_str());
    set_str_if_present(&mut route, "displayName", str_field(settings, "displayName"));
    set_str_if_present(&mut route, "api", str_field(settings, "api"));
    set_str_if_present(&mut route, "baseURL", str_field(settings, "baseURL"));
    set_str_if_present(&mut route, "apiKeyEnv", str_field(settings, "apiKeyEnv"));
    match models {
        Some(m) => entries_set(&mut route, "models", m),
        None => {},
    }
    let mut providers2 = providers;
    put_child_entries(&mut providers2, id.as_str(), route);
    let mut llm2 = llm;
    put_child_entries(&mut llm2, "providers", providers2);
    let mut top1 = top;
    put_child_entries(&mut top1, "llm-pi-ai", llm2);
    assert(crate::yaml::pairs_view(top1@) == dsh_top_with_route(untag(root@)->Mapping_0, settings@, mv));
    let mut d = copy_child_entries(&top1, "agent-default-model");
    entries_set(&mut d, "provider", YamlValue::String(id));
    entries_set(&mut d, "model", YamlValue::String(str_field(settings, "defaultModel")));
    put_child_entries(&mut top1, "agent-default-model", d);
    replace_untagged(root, top1)
}

/// The result of writing a provider: the new text of `settings.yaml`, and the
/// credential (`apiKeyEnv`, `apiKey`) to store when both are present.
#[derive(Debug)]
pub struct DshWrite {
    pub settings_yaml: String,
    pub credential: Option<(String, String)>,
}

pub open spec fn dsh_models_invalid(e: AppError, m: Seq<char>) -> bool {
    is_localized(
        e,
        "provider.dsh.models.invalid"@,
        "DeepSeek Harness 模型列表无法序列化: "@ + m,
        "DeepSeek Harness models could not be serialized: "@ + m,
    )
}

pub open spec fn dsh_settings_serialize_failed(e: AppError, m: Seq<char>) -> bool {
    is_localized(
        e,
        "provider.dsh.config.serialize_failed"@,
        "DeepSeek Harness settings.yaml 序列化失败: "@ + m,
        "Failed to serialize DeepSeek Harness settings.yaml: "@ + m,
    )
}

/// What serde_yaml makes of the models of the settings, where there are some.
pub open spec fn dsh_models_yaml(s: JsonV) -> Option<Result<YamlV, Seq<char>>> {
    if dsh_models(s).len() > 0 {
        Some(yaml_of_json_outcome(JsonV::Arr(dsh_models(s))))
    } else {
        None
    }
}

/// `write_dsh_provider_live` on the settings of a provider and the current
/// settings document: validate, write the route and select it, and say which
/// credential to store.
pub fn write_dsh_provider_live(settings: &JsonValue, root: YamlValue) -> (r: Result<DshWrite, AppError>)
    requires
        dsh_settings_valid(settings@) ==> dsh_slots_ok(
            root@,
            trimmed_field(settings@, "providerId"@),
        ),
    ensures
        !dsh_settings_valid(settings@) ==> (r matches Err(e) && if !(settings@ is Obj) {
            dsh_not_object(e)
        } else if trimmed_field(settings@, "providerId"@).len() == 0 {
            dsh_missing_field(e, "providerId"@)
        } else {
            dsh_missing_field(e, "defaultModel"@)
        }),
        dsh_settings_valid(settings@) ==> match dsh_models_yaml(settings@) {
            Some(Err(m)) => r matches Err(e) && dsh_models_invalid(e, m),
            _ => {
                let written = dsh_settings_written(
                    root@,
                    settings@,
                    match dsh_models_yaml(settings@) {
                        Some(Ok(y)) => Some(y),
                        _ => None,
                    },
                );
                match yaml_text_outcome(written) {
                    Err(m) => r matches Err(e) && dsh_settings_serialize_failed(e, m),
                    Ok(t) => r matches Ok(w) && w.settings_yaml@ == t && (w.credential is Some
                        <==> trimmed_field(settings@, "apiKeyEnv"@).len() > 0 && trimmed_field(
                        settings@,
                        "apiKey"@,
                    ).len() > 0) && (w.credential matches Some(c) ==> c.0@ == trimmed_field(
                        settings@,
                        "apiKeyEnv"@,
                    ) && c.1@ == trimmed_field(settings@, "apiKey"@)),
                }
            },
        },
{
    match validate_dsh_settings(settings) {
        Err(e) => return Err(e),
        Ok(()) => {},
    }
    let models_value = match settings.get("models") {
        Some(v) => match v {
            JsonValue::Array(_) => Some(v.copy()),
            _ => None,
        },
        None => None,
    };
    let models_yaml = match models_value {
        Some(JsonValue::Array(items)) => {
            if items.len() > 0 {
                let v = JsonValue::Array(items);
                match yaml_of_json(&v) {
                    Ok(y) => Some(y),
                    Err(m) => {
                        let zh = concat("DeepSeek Harness 模型列表无法序列化: ", m.as_str());
                        let en = concat("DeepSeek Harness models could not be serialized: ", m.as_str());
                        return Err(AppError::localized("provider.dsh.models.invalid", zh, en));
                    },
                }
            } else {
                None
            }
        },
        _ => None,
    };
    let written = apply_dsh_provider(root, settings, models_yaml);
    let text = match yaml_to_text(&written) {
        Ok(t) => t,
        Err(m) => {
            let zh = concat("DeepSeek Harness settings.yaml 序列化失败: ", m.as_str());
            let en = concat("Failed to serialize DeepSeek Harness settings.yaml: ", m.as_str());
            return Err(AppError::localized("provider.dsh.config.serialize_failed", zh, en));
        },
    };
    let env = str_field(settings, "apiKeyEnv");
    let key = str_field(settings, "apiKey");
    let credential = if !key.as_str().is_empty() && !env.as_str().is_empty() {
        Some((env, key))
    } else {
        None
    };
    Ok(DshWrite { settings_yaml: text, credential })
}

/// The credential document after a key is stored: `version: 1` added when
/// there is no version, and `refs.<env>` set to the key.
pub open spec fn dsh_credentials_written(root: YamlV, env: Seq<char>, key: Seq<char>) -> YamlV {
    let top = untag(root)->Mapping_0;
    let top1 = if assoc_get(top, ykey("version"@)) is Some {
        top
    } else {
        assoc_set(top, ykey("version"@), YamlV::Num(crate::json::NumberV::PosInt(1)))
    };
    let refs = child_entries(top1, "refs"@);
    set_untagged(root, put_child(top1, "refs"@, assoc_set(refs, ykey(env), YamlV::Str(key))))
}

/// The credential document can take a key: it is a mapping whose `refs` is
/// absent or a mapping.
pub open spec fn dsh_refs_slot_ok(root: YamlV) -> bool {
    untag(root) is Mapping && child_slot_ok(untag(root)->Mapping_0, "refs"@)
}

/// Whether the credential document can take a key.
pub fn dsh_refs_slot_is_mapping(root: &YamlValue) -> (r: bool)
    ensures
        r == dsh_refs_slot_ok(root@),
{
    match root.as_mapping() {
        Some(top) => child_slot_is_mapping(top, "refs"),
        None => false,
    }
}

pub open spec fn dsh_credentials_serialize_failed(e: AppError, m: Seq<char>) -> bool {
    is_localized(
        e,
        "provider.dsh.credentials.serialize_failed"@,
        "DeepSeek Harness .credentials.yaml 序列化失败: "@ + m,
        "Failed to serialize DeepSeek Harness .credentials.yaml: "@ + m,
    )
}

/// Store a key in a credential document.
pub fn apply_dsh_credential(root: YamlValue, api_key_env: &str, api_key: &str) -> (r: YamlValue)
    requires
        dsh_refs_slot_ok(root@),
    ensures
        r@ == dsh_credentials_written(root@, api_key_env@, api_key@),
{
    let mut top = match root.as_mapping() {
        Some(e) => copy_pairs(e),
        None => Vec::new(),
    };
    if entries_get(&top, "version").is_none() {
        entries_set(&mut top, "version", YamlValue::Number(YamlNumber::PosInt(1)));
    }
    let mut refs = copy_child_entries(&top, "refs");
    entries_set(&mut refs, api_key_env, YamlValue::String(api_key.to_owned()));
    put_child_entries(&mut top, "refs", refs);
    replace_untagged(root, top)
}

/// `write_dsh_credential` on the current credential document: the new text of
/// `.credentials.yaml` with the key stored under `refs.<api_key_env>`.
pub fn write_dsh_credential(root: YamlValue, api_key_env: &str, api_key: &str) -> (r: Result<String, AppError>)
    requires
        dsh_refs_slot_ok(root@),
    ensures
        match yaml_text_outcome(dsh_credentials_written(root@, api_key_env@, api_key@)) {
            Ok(t) => r matches Ok(x) && x@ == t,
            Err(m) => r matches Err(e) && dsh_credentials_serialize_failed(e, m),
        },
{
    let written = apply_dsh_credential(root, api_key_env, api_key);
    match yaml_to_text(&written) {
        Ok(t) => Ok(t),
        Err(m) => {
            let zh = concat("DeepSeek Harness .credentials.yaml 序列化失败: ", m.as_str());
            let en = concat("Failed to serialize DeepSeek Harness .credentials.yaml: ", m.as_str());
            Err(AppError::localized("provider.dsh.credentials.serialize_failed", zh, en))
        },
    }
}

pub proof fn lemma_put_child_same(top: Seq<(YamlV, YamlV)>, k: Seq<char>, e: Seq<(YamlV, YamlV)>)
    ensures
        assoc_get(put_child(top, k, e), ykey(k)) matches Some(v) && untag(v) == YamlV::Mapping(e),
        ymapping(assoc_get(put_child(top, k, e), ykey(k))) == Some(e),
        child_entries(put_child(top, k, e), k) == e,
{
    match assoc_get(top, ykey(k)) {
        Some(v) => {
            crate::assoc::lemma_assoc_get_set_same(top, ykey(k), set_untagged(v, e));
            crate::yaml::lemma_untag_set_untagged(v, e);
        },
        None => {
            crate::assoc::lemma_assoc_get_set_same(top, ykey(k), YamlV::Mapping(e));
        },
    }
}

pub proof fn lemma_yget_set_untagged(root: YamlV, top: Seq<(YamlV, YamlV)>, k: Seq<char>)
    ensures
        yget(set_untagged(root, top), k) == assoc_get(top, ykey(k)),
{
    crate::yaml::lemma_untag_set_untagged(root, top);
}

/// Writing a provider and then reading the live settings gives back the
/// provider: its id and default model, each route field that the settings
/// hold (display name, API, base URL, key variable), and the key stored in
/// the credential document when the settings hold both a key variable and a
/// key; the models read back are serde's JSON of the models written.
pub proof fn law_dsh_write_then_read(
    root: YamlV,
    settings: JsonV,
    models: Option<YamlV>,
    creds: YamlV,
)
    requires
        dsh_settings_valid(settings),
        dsh_slots_ok(root, trimmed_field(settings, "providerId"@)),
    ensures
        ({
            let written = dsh_settings_written(root, settings, models);
            let env = trimmed_field(settings, "apiKeyEnv"@);
            let key = trimmed_field(settings, "apiKey"@);
            let stored = if env.len() > 0 && key.len() > 0 {
                Some(dsh_credentials_written(creds, env, key))
            } else {
                Some(creds)
            };
            dsh_live(written, stored) matches Some(l) && {
                &&& l.provider_id == trimmed_field(settings, "providerId"@)
                &&& l.default_model == trimmed_field(settings, "defaultModel"@)
                &&& trimmed_field(settings, "displayName"@).len() > 0 ==> l.display_name
                    == trimmed_field(settings, "displayName"@)
                &&& trimmed_field(settings, "api"@).len() > 0 ==> l.api == trimmed_field(
                    settings,
                    "api"@,
                )
                &&& trimmed_field(settings, "baseURL"@).len() > 0 ==> l.base_url == trimmed_field(
                    settings,
                    "baseURL"@,
                )
                &&& env.len() > 0 ==> l.api_key_env == env
                &&& env.len() > 0 && key.len() > 0 ==> l.api_key == key
                &&& models matches Some(m) ==> l.models == match json_of_yaml_outcome(m) {
                    Ok(j) => j,
                    Err(_) => JsonV::Arr(Seq::empty()),
                }
            }
        }),
{
    reveal_strlit("llm-pi-ai");
    reveal_strlit("agent-default-model");
    reveal_strlit("providers");
    reveal_strlit("provider");
    reveal_strlit("model");
    reveal_strlit("displayName");
    reveal_strlit("api");
    reveal_strlit("baseURL");
    reveal_strlit("apiKeyEnv");
    reveal_strlit("models");
    reveal_strlit("refs");
    reveal_strlit("version");
    assert("displayName"@.len() == 11 && "api"@.len() == 3 && "baseURL"@.len() == 7);
    assert("apiKeyEnv"@.len() == 9 && "models"@.len() == 6);
    let id = trimmed_field(settings, "providerId"@);
    let model = trimmed_field(settings, "defaultModel"@);
    let top = untag(root)->Mapping_0;
    let llm = child_entries(top, "llm-pi-ai"@);
    let providers = child_entries(llm, "providers"@);
    let route = child_entries(providers, id);
    let route2 = dsh_route_written(route, settings, models);
    let providers2 = put_child(providers, id, route2);
    let llm2 = put_child(llm, "providers"@, providers2);
    let top1 = put_child(top, "llm-pi-ai"@, llm2);
    let d = child_entries(top1, "agent-default-model"@);
    let d1 = assoc_set(d, ykey("provider"@), YamlV::Str(id));
    let d2 = assoc_set(d1, ykey("model"@), YamlV::Str(model));
    let top2 = put_child(top1, "agent-default-model"@, d2);
    let written = dsh_settings_written(root, settings, models);
    assert(written == set_untagged(root, top2));
    // agent-default-model
    lemma_yget_set_untagged(root, top2, "agent-default-model"@);
    lemma_put_child_same(top1, "agent-default-model"@, d2);
    let adm = yget(written, "agent-default-model"@);
    assert(adm matches Some(v) && untag(v) == YamlV::Mapping(d2));
    assert("model"@.len() != "provider"@.len());
    assert(ykey("model"@) != ykey("provider"@));
    assert("llm-pi-ai"@.len() != "agent-default-model"@.len());
    crate::assoc::lemma_assoc_get_set_other(d1, ykey("model"@), YamlV::Str(model), ykey("provider"@));
    crate::assoc::lemma_assoc_get_set_same(d, ykey("provider"@), YamlV::Str(id));
    crate::assoc::lemma_assoc_get_set_same(d1, ykey("model"@), YamlV::Str(model));
    assert(yget_in(adm, "provider"@) == Some(YamlV::Str(id)));
    assert(yget_in(adm, "model"@) == Some(YamlV::Str(model)));
    crate::text::lemma_trimmed_idempotent(crate::json::json_str(crate::json::json_get(settings, "providerId"@)).unwrap_or(Seq::empty()));
    crate::text::lemma_trimmed_idempotent(crate::json::json_str(crate::json::json_get(settings, "defaultModel"@)).unwrap_or(Seq::empty()));
    assert(trimmed(id) == id);
    assert(trimmed(model) == model);
    // the route
    lemma_yget_set_untagged(root, top2, "llm-pi-ai"@);
    lemma_put_child_other(top1, "agent-default-model"@, d2, "llm-pi-ai"@);
    lemma_put_child_same(top, "llm-pi-ai"@, llm2);
    let lv = yget(written, "llm-pi-ai"@);
    assert(lv matches Some(v) && untag(v) == YamlV::Mapping(llm2));
    lemma_put_child_same(llm, "providers"@, providers2);
    let pv = yget_in(lv, "providers"@);
    assert(pv matches Some(v) && untag(v) == YamlV::Mapping(providers2));
    lemma_put_child_same(providers, id, route2);
    assert(dsh_route(written, id) == Some(route2));
    let r1 = set_if_present(route, "displayName"@, trimmed_field(settings, "displayName"@));
    let r2 = set_if_present(r1, "api"@, trimmed_field(settings, "api"@));
    let r3 = set_if_present(r2, "baseURL"@, trimmed_field(settings, "baseURL"@));
    let r4 = set_if_present(r3, "apiKeyEnv"@, trimmed_field(settings, "apiKeyEnv"@));
    let env = trimmed_field(settings, "apiKeyEnv"@);
    let key = trimmed_field(settings, "apiKey"@);
    // a field read back from route2 is the field as set in the step that wrote it
    assert forall|k: Seq<char>| k != "models"@ implies assoc_get(route2, ykey(k)) == assoc_get(r4, ykey(k)) by {
        if let Some(m) = models {
            crate::assoc::lemma_assoc_get_set_other(r4, ykey("models"@), m, ykey(k));
        }
    }
    if env.len() > 0 {
        crate::assoc::lemma_assoc_get_set_same(r3, ykey("apiKeyEnv"@), YamlV::Str(env));
    }
    assert forall|k: Seq<char>| k != "models"@ && k != "apiKeyEnv"@ implies assoc_get(r4, ykey(k)) == assoc_get(r3, ykey(k)) by {
        if env.len() > 0 {
            crate::assoc::lemma_assoc_get_set_other(r3, ykey("apiKeyEnv"@), YamlV::Str(env), ykey(k));
        }
    }
    if trimmed_field(settings, "baseURL"@).len() > 0 {
        crate::assoc::lemma_assoc_get_set_same(r2, ykey("baseURL"@), YamlV::Str(trimmed_field(settings, "baseURL"@)));
    }
    assert forall|k: Seq<char>| k != "baseURL"@ implies assoc_get(r3, ykey(k)) == assoc_get(r2, ykey(k)) by {
        if trimmed_field(settings, "baseURL"@).len() > 0 {
            crate::assoc::lemma_assoc_get_set_other(r2, ykey("baseURL"@), YamlV::Str(trimmed_field(settings, "baseURL"@)), ykey(k));
        }
    }
    if trimmed_field(settings, "api"@).len() > 0 {
        crate::assoc::lemma_assoc_get_set_same(r1, ykey("api"@), YamlV::Str(trimmed_field(settings, "api"@)));
    }
    assert forall|k: Seq<char>| k != "api"@ implies assoc_get(r2, ykey(k)) == assoc_get(r1, ykey(k)) by {
        if trimmed_field(settings, "api"@).len() > 0 {
            crate::assoc::lemma_assoc_get_set_other(r1, ykey("api"@), YamlV::Str(trimmed_field(settings, "api"@)), ykey(k));
        }
    }
    if trimmed_field(settings, "displayName"@).len() > 0 {
        crate::assoc::lemma_assoc_get_set_same(route, ykey("displayName"@), YamlV::Str(trimmed_field(settings, "displayName"@)));
    }
    if let Some(m) = models {
        crate::assoc::lemma_assoc_get_set_same(r4, ykey("models"@), m);
    }
    let l = dsh_live(written, if env.len() > 0 && key.len() > 0 {
        Some(dsh_credentials_written(creds, env, key))
    } else {
        Some(creds)
    });
    assert(l is Some);
    // the credential
    if env.len() > 0 && key.len() > 0 {
        let ctop = untag(creds)->Mapping_0;
        let ctop1 = if assoc_get(ctop, ykey("version"@)) is Some {
            ctop
        } else {
            assoc_set(ctop, ykey("version"@), YamlV::Num(crate::json::NumberV::PosInt(1)))
        };
        let refs = child_entries(ctop1, "refs"@);
        let refs2 = assoc_set(refs, ykey(env), YamlV::Str(key));
        let ctop2 = put_child(ctop1, "refs"@, refs2);
        lemma_yget_set_untagged(creds, ctop2, "refs"@);
        lemma_put_child_same(ctop1, "refs"@, refs2);
        crate::assoc::lemma_assoc_get_set_same(refs, ykey(env), YamlV::Str(key));
        assert(l->0.api_key_env == env);
        assert(l->0.api_key == key);
    }
}

/// Writing a provider never puts a key into the settings document: the
/// route's `apiKey` entry is what it was before (none for a new route), so the
/// settings carry only the name of the key's reference and the key itself goes
/// to the credential document alone.
pub proof fn law_dsh_settings_hold_no_key(root: YamlV, settings: JsonV, models: Option<YamlV>)
    requires
        dsh_settings_valid(settings),
        dsh_slots_ok(root, trimmed_field(settings, "providerId"@)),
    ensures
        ({
            let id = trimmed_field(settings, "providerId"@);
            let before = match dsh_route(root, id) {
                Some(r) => assoc_get(r, ykey("apiKey"@)),
                None => None,
            };
            dsh_route(dsh_settings_written(root, settings, models), id) matches Some(r) && assoc_get(
                r,
                ykey("apiKey"@),
            ) == before
        }),
{
    reveal_strlit("llm-pi-ai");
    reveal_strlit("agent-default-model");
    reveal_strlit("providers");
    reveal_strlit("apiKey");
    reveal_strlit("displayName");
    reveal_strlit("api");
    reveal_strlit("baseURL");
    reveal_strlit("apiKeyEnv");
    reveal_strlit("models");
    let id = trimmed_field(settings, "providerId"@);
    let top = untag(root)->Mapping_0;
    let llm = child_entries(top, "llm-pi-ai"@);
    let providers = child_entries(llm, "providers"@);
    let route = child_entries(providers, id);
    let route2 = dsh_route_written(route, settings, models);
    let providers2 = put_child(providers, id, route2);
    let llm2 = put_child(llm, "providers"@, providers2);
    let top1 = put_child(top, "llm-pi-ai"@, llm2);
    let d = child_entries(top1, "agent-default-model"@);
    let d2 = assoc_set(
        assoc_set(d, ykey("provider"@), YamlV::Str(id)),
        ykey("model"@),
        YamlV::Str(trimmed_field(settings, "defaultModel"@)),
    );
    let top2 = put_child(top1, "agent-default-model"@, d2);
    let written = dsh_settings_written(root, settings, models);
    assert(written == set_untagged(root, top2));
    assert("llm-pi-ai"@.len() != "agent-default-model"@.len());
    lemma_yget_set_untagged(root, top2, "llm-pi-ai"@);
    lemma_put_child_other(top1, "agent-default-model"@, d2, "llm-pi-ai"@);
    lemma_put_child_same(top, "llm-pi-ai"@, llm2);
    lemma_put_child_same(llm, "providers"@, providers2);
    lemma_put_child_same(providers, id, route2);
    assert(dsh_route(written, id) == Some(route2));
    // the route as it was: the same lookup, empty where there was none
    assert(match dsh_route(root, id) {
        Some(r) => assoc_get(r, ykey("apiKey"@)),
        None => None,
    } == assoc_get(route, ykey("apiKey"@))) by {
        if dsh_route(root, id) is None {
            assert(route == Seq::<(YamlV, YamlV)>::empty());
        }
    }
    // no step of the route's write touches `apiKey`
    let k = ykey("apiKey"@);
    assert("apiKey"@[0] != "models"@[0]);
    assert("apiKey"@.len() != "displayName"@.len() && "apiKey"@.len() != "api"@.len());
    assert("apiKey"@.len() != "baseURL"@.len() && "apiKey"@.len() != "apiKeyEnv"@.len());
    let r1 = set_if_present(route, "displayName"@, trimmed_field(settings, "displayName"@));
    let r2 = set_if_present(r1, "api"@, trimmed_field(settings, "api"@));
    let r3 = set_if_present(r2, "baseURL"@, trimmed_field(settings, "baseURL"@));
    let r4 = set_if_present(r3, "apiKeyEnv"@, trimmed_field(settings, "apiKeyEnv"@));
    if let Some(m) = models {
        crate::assoc::lemma_assoc_get_set_other(r4, ykey("models"@), m, k);
    }
    if trimmed_field(settings, "apiKeyEnv"@).len() > 0 {
        crate::assoc::lemma_assoc_get_set_other(
            r3,
            ykey("apiKeyEnv"@),
            YamlV::Str(trimmed_field(settings, "apiKeyEnv"@)),
            k,
        );
    }
    if trimmed_field(settings, "baseURL"@).len() > 0 {
        crate::assoc::lemma_assoc_get_set_other(
            r2,
            ykey("baseURL"@),
            YamlV::Str(trimmed_field(settings, "baseURL"@)),
            k,
        );
    }
    if trimmed_field(settings, "api"@).len() > 0 {
        crate::assoc::lemma_assoc_get_set_other(r1, ykey("api"@), YamlV::Str(trimmed_field(settings, "api"@)), k);
    }
    if trimmed_field(settings, "displayName"@).len() > 0 {
        crate::assoc::lemma_assoc_get_set_other(
            route,
            ykey("displayName"@),
            YamlV::Str(trimmed_field(settings, "displayName"@)),
            k,
        );
    }
}

/// Looking a key up in the child mapping `k` of `top` is looking it up in the
/// child's entries, where the child is absent or a mapping.
pub proof fn lemma_yget_in_child(top: Seq<(YamlV, YamlV)>, k: Seq<char>, key: Seq<char>)
    requires
        child_slot_ok(top, k),
    ensures
        yget_in(assoc_get(top, ykey(k)), key) == assoc_get(child_entries(top, k), ykey(key)),
{
}

/// Writing a provider leaves every other provider's route, every other entry
/// of `llm-pi-ai`, and every entry of `agent-default-model` other than
/// `provider` and `model`, as they were.
pub proof fn law_dsh_write_preserves_other_entries(
    root: YamlV,
    settings: JsonV,
    models: Option<YamlV>,
    other_provider: Seq<char>,
    other_llm_key: Seq<char>,
    other_default_key: Seq<char>,
)
    requires
        dsh_settings_valid(settings),
        dsh_slots_ok(root, trimmed_field(settings, "providerId"@)),
        other_provider != trimmed_field(settings, "providerId"@),
        other_llm_key != "providers"@,
        other_default_key != "provider"@,
        other_default_key != "model"@,
    ensures
        ({
            let written = dsh_settings_written(root, settings, models);
            &&& yget_in(yget_in(yget(written, "llm-pi-ai"@), "providers"@), other_provider)
                == yget_in(yget_in(yget(root, "llm-pi-ai"@), "providers"@), other_provider)
            &&& yget_in(yget(written, "llm-pi-ai"@), other_llm_key) == yget_in(
                yget(root, "llm-pi-ai"@),
                other_llm_key,
            )
            &&& yget_in(yget(written, "agent-default-model"@), other_default_key) == yget_in(
                yget(root, "agent-default-model"@),
                other_default_key,
            )
        }),
{
    reveal_strlit("llm-pi-ai");
    reveal_strlit("agent-default-model");
    let id = trimmed_field(settings, "providerId"@);
    let top = untag(root)->Mapping_0;
    let llm = child_entries(top, "llm-pi-ai"@);
    let providers = child_entries(llm, "providers"@);
    let route = child_entries(providers, id);
    let route2 = dsh_route_written(route, settings, models);
    let providers2 = put_child(providers, id, route2);
    let llm2 = put_child(llm, "providers"@, providers2);
    let top1 = put_child(top, "llm-pi-ai"@, llm2);
    let d = child_entries(top1, "agent-default-model"@);
    let d1 = assoc_set(d, ykey("provider"@), YamlV::Str(id));
    let d2 = assoc_set(d1, ykey("model"@), YamlV::Str(trimmed_field(settings, "defaultModel"@)));
    let top2 = put_child(top1, "agent-default-model"@, d2);
    let written = dsh_settings_written(root, settings, models);
    assert(written == set_untagged(root, top2));
    assert("llm-pi-ai"@.len() != "agent-default-model"@.len());
    // the settings as they were
    lemma_yget_in_child(top, "llm-pi-ai"@, "providers"@);
    lemma_yget_in_child(llm, "providers"@, other_provider);
    lemma_yget_in_child(top, "llm-pi-ai"@, other_llm_key);
    lemma_yget_in_child(top, "agent-default-model"@, other_default_key);
    // the settings as written
    lemma_yget_set_untagged(root, top2, "llm-pi-ai"@);
    lemma_yget_set_untagged(root, top2, "agent-default-model"@);
    lemma_put_child_other(top1, "agent-default-model"@, d2, "llm-pi-ai"@);
    lemma_put_child_same(top, "llm-pi-ai"@, llm2);
    lemma_put_child_same(llm, "providers"@, providers2);
    lemma_yget_in_child(top1, "llm-pi-ai"@, "providers"@);
    lemma_yget_in_child(llm2, "providers"@, other_provider);
    lemma_put_child_other(providers, id, route2, other_provider);
    lemma_yget_in_child(top1, "llm-pi-ai"@, other_llm_key);
    lemma_put_child_other(llm, "providers"@, providers2, other_llm_key);
    lemma_put_child_same(top1, "agent-default-model"@, d2);
    lemma_yget_in_child(top2, "agent-default-model"@, other_default_key);
    lemma_put_child_other(top, "llm-pi-ai"@, llm2, "agent-default-model"@);
    assert(ykey(other_default_key) != ykey("provider"@));
    assert(ykey(other_default_key) != ykey("model"@));
    crate::assoc::lemma_assoc_get_set_other(
        d1,
        ykey("model"@),
        YamlV::Str(trimmed_field(settings, "defaultModel"@)),
        ykey(other_default_key),
    );
    crate::assoc::lemma_assoc_get_set_other(d, ykey("provider"@), YamlV::Str(id), ykey(other_default_key));
}

/// Writing a provider leaves every top-level entry of the settings document
/// other than `llm-pi-ai` and `agent-default-model` as it was.
pub proof fn law_dsh_write_preserves_other_namespaces(
    root: YamlV,
    settings: JsonV,
    models: Option<YamlV>,
    key: Seq<char>,
)
    requires
        untag(root) is Mapping,
        key != "llm-pi-ai"@,
        key != "agent-default-model"@,
    ensures
        yget(dsh_settings_written(root, settings, models), key) == yget(root, key),
{
    let top = untag(root)->Mapping_0;
    let top1 = dsh_top_with_route(top, settings, models);
    let d = child_entries(top1, "agent-default-model"@);
    let d2 = assoc_set(
        assoc_set(d, ykey("provider"@), YamlV::Str(trimmed_field(settings, "providerId"@))),
        ykey("model"@),
        YamlV::Str(trimmed_field(settings, "defaultModel"@)),
    );
    let top2 = put_child(top1, "agent-default-model"@, d2);
    lemma_yget_set_untagged(root, top2, key);
    lemma_put_child_other(top1, "agent-default-model"@, d2, key);
    let id = trimmed_field(settings, "providerId"@);
    let llm = child_entries(top, "llm-pi-ai"@);
    let providers = child_entries(llm, "providers"@);
    let route = child_entries(providers, id);
    lemma_put_child_other(
        top,
        "llm-pi-ai"@,
        put_child(llm, "providers"@, put_child(providers, id, dsh_route_written(route, settings, models))),
        key,
    );
}

/// Storing a key leaves every other reference of the credential document, and
/// every top-level entry other than `version` and `refs`, as it was; the
/// document then has a version.
pub proof fn law_dsh_credential_preserves_others(
    root: YamlV,
    env: Seq<char>,
    key: Seq<char>,
    other_ref: Seq<char>,
    other_top: Seq<char>,
)
    requires
        dsh_refs_slot_ok(root),
        other_ref != env,
        other_top != "refs"@,
        other_top != "version"@,
    ensures
        yget_in(yget(dsh_credentials_written(root, env, key), "refs"@), other_ref) == yget_in(
            yget(root, "refs"@),
            other_ref,
        ),
        yget(dsh_credentials_written(root, env, key), other_top) == yget(root, other_top),
        yget(dsh_credentials_written(root, env, key), "version"@) is Some,
{
    reveal_strlit("refs");
    reveal_strlit("version");
    let top = untag(root)->Mapping_0;
    let top1 = if assoc_get(top, ykey("version"@)) is Some {
        top
    } else {
        assoc_set(top, ykey("version"@), YamlV::Num(crate::json::NumberV::PosInt(1)))
    };
    let refs = child_entries(top1, "refs"@);
    let refs2 = assoc_set(refs, ykey(env), YamlV::Str(key));
    let top2 = put_child(top1, "refs"@, refs2);
    lemma_yget_set_untagged(root, top2, "refs"@);
    lemma_yget_set_untagged(root, top2, other_top);
    lemma_yget_set_untagged(root, top2, "version"@);
    lemma_put_child_same(top1, "refs"@, refs2);
    lemma_put_child_other(top1, "refs"@, refs2, other_top);
    assert("refs"@.len() != "version"@.len());
    lemma_put_child_other(top1, "refs"@, refs2, "version"@);
    assert(ykey(other_ref) != ykey(env));
    crate::assoc::lemma_assoc_get_set_other(refs, ykey(env), YamlV::Str(key), ykey(other_ref));
    if assoc_get(top, ykey("version"@)) is None {
        crate::assoc::lemma_assoc_get_set_same(top, ykey("version"@), YamlV::Num(crate::json::NumberV::PosInt(1)));
        crate::assoc::lemma_assoc_get_set_other(top, ykey("version"@), YamlV::Num(crate::json::NumberV::PosInt(1)), ykey("refs"@));
        crate::assoc::lemma_assoc_get_set_other(top, ykey("version"@), YamlV::Num(crate::json::NumberV::PosInt(1)), ykey(other_top));
    }
    assert(child_entries(top1, "refs"@) == child_entries(top, "refs"@));
}

/// The route written for the provider is the route that was there with the
/// settings' fields and the given models written into it.
pub proof fn lemma_dsh_route_after_write(root: YamlV, settings: JsonV, models: Option<YamlV>)
    requires
        dsh_settings_valid(settings),
        dsh_slots_ok(root, trimmed_field(settings, "providerId"@)),
    ensures
        dsh_route(dsh_settings_written(root, settings, models), trimmed_field(settings, "providerId"@))
            == Some(
            dsh_route_written(
                child_entries(
                    child_entries(
                        child_entries(untag(root)->Mapping_0, "llm-pi-ai"@),
                        "providers"@,
                    ),
                    trimmed_field(settings, "providerId"@),
                ),
                settings,
                models,
            ),
        ),
{
    reveal_strlit("llm-pi-ai");
    reveal_strlit("agent-default-model");
    reveal_strlit("providers");
    let id = trimmed_field(settings, "providerId"@);
    let top = untag(root)->Mapping_0;
    let llm = child_entries(top, "llm-pi-ai"@);
    let providers = child_entries(llm, "providers"@);
    let route = child_entries(providers, id);
    let route2 = dsh_route_written(route, settings, models);
    let providers2 = put_child(providers, id, route2);
    let llm2 = put_child(llm, "providers"@, providers2);
    let top1 = put_child(top, "llm-pi-ai"@, llm2);
    let d = child_entries(top1, "agent-default-model"@);
    let d2 = assoc_set(
        assoc_set(d, ykey("provider"@), YamlV::Str(id)),
        ykey("model"@),
        YamlV::Str(trimmed_field(settings, "defaultModel"@)),
    );
    let top2 = put_child(top1, "agent-default-model"@, d2);
    let written = dsh_settings_written(root, settings, models);
    assert(written == set_untagged(root, top2));
    assert("llm-pi-ai"@.len() != "agent-default-model"@.len());
    lemma_yget_set_untagged(root, top2, "llm-pi-ai"@);
    lemma_put_child_other(top1, "agent-default-model"@, d2, "llm-pi-ai"@);
    lemma_put_child_same(top, "llm-pi-ai"@, llm2);
    lemma_put_child_same(llm, "providers"@, providers2);
    lemma_put_child_same(providers, id, route2);
}

/// Writing a provider whose settings hold a non-empty `models` array puts
/// under its route serde_yaml's value of that whole array, and reading the
/// settings back gives serde_json's value of that YAML; an empty or missing
/// array leaves the route's models as they were.
pub proof fn law_dsh_write_keeps_all_models(root: YamlV, settings: JsonV, a: Seq<JsonV>)
    requires
        dsh_settings_valid(settings),
        dsh_slots_ok(root, trimmed_field(settings, "providerId"@)),
        json_get(settings, "models"@) == Some(JsonV::Arr(a)),
    ensures
        ({
            let id = trimmed_field(settings, "providerId"@);
            let models = match dsh_models_yaml(settings) {
                Some(Ok(y)) => Some(y),
                _ => None,
            };
            let written = dsh_settings_written(root, settings, models);
            let before = match dsh_route(root, id) {
                Some(r) => assoc_get(r, ykey("models"@)),
                None => None,
            };
            &&& (a.len() > 0 && yaml_of_json_outcome(JsonV::Arr(a)) is Ok) ==> (dsh_route(
                written,
                id,
            ) matches Some(r) && assoc_get(r, ykey("models"@)) == Some(
                yaml_of_json_outcome(JsonV::Arr(a))->Ok_0,
            ))
            &&& (a.len() > 0 && yaml_of_json_outcome(JsonV::Arr(a)) is Ok) ==> (dsh_live(
                written,
                None,
            ) matches Some(l) && l.models == match json_of_yaml_outcome(
                yaml_of_json_outcome(JsonV::Arr(a))->Ok_0,
            ) {
                Ok(j) => j,
                Err(_) => JsonV::Arr(Seq::empty()),
            })
            &&& a.len() == 0 ==> (dsh_route(written, id) matches Some(r) && assoc_get(
                r,
                ykey("models"@),
            ) == before)
        }),
{
    reveal_strlit("llm-pi-ai");
    reveal_strlit("providers");
    reveal_strlit("models");
    reveal_strlit("displayName");
    reveal_strlit("api");
    reveal_strlit("baseURL");
    reveal_strlit("apiKeyEnv");
    let id = trimmed_field(settings, "providerId"@);
    assert(dsh_models(settings) == a);
    let models = match dsh_models_yaml(settings) {
        Some(Ok(y)) => Some(y),
        _ => None,
    };
    lemma_dsh_route_after_write(root, settings, models);
    let top = untag(root)->Mapping_0;
    let route = child_entries(child_entries(child_entries(top, "llm-pi-ai"@), "providers"@), id);
    let r1 = set_if_present(route, "displayName"@, trimmed_field(settings, "displayName"@));
    let r2 = set_if_present(r1, "api"@, trimmed_field(settings, "api"@));
    let r3 = set_if_present(r2, "baseURL"@, trimmed_field(settings, "baseURL"@));
    let r4 = set_if_present(r3, "apiKeyEnv"@, trimmed_field(settings, "apiKeyEnv"@));
    let k = ykey("models"@);
    if let Some(m) = models {
        crate::assoc::lemma_assoc_get_set_same(r4, k, m);
        law_dsh_write_then_read(root, settings, models, YamlV::Mapping(Seq::empty()));
    } else {
        // the route's models are untouched: no field written has that key
        assert("models"@.len() != "displayName"@.len() && "models"@.len() != "api"@.len());
        assert("models"@.len() != "baseURL"@.len() && "models"@.len() != "apiKeyEnv"@.len());
        if trimmed_field(settings, "apiKeyEnv"@).len() > 0 {
            crate::assoc::lemma_assoc_get_set_other(
                r3,
                ykey("apiKeyEnv"@),
                YamlV::Str(trimmed_field(settings, "apiKeyEnv"@)),
                k,
            );
        }
        if trimmed_field(settings, "baseURL"@).len() > 0 {
            crate::assoc::lemma_assoc_get_set_other(
                r2,
                ykey("baseURL"@),
                YamlV::Str(trimmed_field(settings, "baseURL"@)),
                k,
            );
        }
        if trimmed_field(settings, "api"@).len() > 0 {
            crate::assoc::lemma_assoc_get_set_other(
                r1,
                ykey("api"@),
                YamlV::Str(trimmed_field(settings, "api"@)),
                k,
            );
        }
        if trimmed_field(settings, "displayName"@).len() > 0 {
            crate::assoc::lemma_assoc_get_set_other(
                route,
                ykey("displayName"@),
                YamlV::Str(trimmed_field(settings, "displayName"@)),
                k,
            );
        }
        assert(match dsh_route(root, id) {
            Some(r) => assoc_get(r, k),
            None => None,
        } == assoc_get(route, k)) by {
            if dsh_route(root, id) is None {
                assert(route == Seq::<(YamlV, YamlV)>::empty());
            }
        }
    }
}

} // verus!
