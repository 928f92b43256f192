//! The shape that an MCP server definition must have.
use vstd::prelude::*;
use crate::error::AppError;
use crate::json::{json_get, json_str, JsonV, JsonValue};
use crate::text::{is_blank, str_eq, str_is_blank};

verus! {

/// The `type` of a server definition, where it is a string.
pub open spec fn server_type(spec: JsonV) -> Option<Seq<char>> {
    json_str(json_get(spec, "type"@))
}

/// The string under `key`, or the empty string.
pub open spec fn str_or_empty(spec: JsonV, key: Seq<char>) -> Seq<char> {
    match json_str(json_get(spec, key)) {
        Some(s) => s,
        None => Seq::empty(),
    }
}

/// A server definition is valid: an object whose `type` is absent (or not a
/// string) or `stdio`, with a non-blank `command`; or whose `type` is `http`
/// or `sse`, with a non-blank `url`.
pub open spec fn server_spec_valid(spec: JsonV) -> bool {
    let t = server_type(spec);
    let stdio = t is None || t == Some("stdio"@);
    let remote = t == Some("http"@) || t == Some("sse"@);
    &&& spec is Obj
    &&& stdio || remote
    &&& stdio ==> !is_blank(str_or_empty(spec, "command"@))
    &&& remote ==> !is_blank(str_or_empty(spec, "url"@))
}

fn field_str<'a>(spec: &'a JsonValue, key: &str) -> (r: &'a str)
    ensures
        r@ == str_or_empty(spec@, key@),
{
    proof {
        reveal_strlit("");
        assert(""@ =~= Seq::<char>::empty());
    }
    match spec.get(key) {
        Some(v) => match v.as_str() {
            Some(s) => s,
            None => "",
        },
        None => "",
    }
}

/// What is wrong with a server definition, checked in order: not an object;
/// a `type` other than `stdio`, `http` or `sse`; a stdio server without a
/// command; a remote server without a URL. Nothing for a valid one.
pub open spec fn server_spec_problem(spec: JsonV) -> Option<Seq<char>> {
    let t = server_type(spec);
    let stdio = t is None || t == Some("stdio"@);
    let remote = t == Some("http"@) || t == Some("sse"@);
    if !(spec is Obj) {
        Some("MCP server definition must be a JSON object"@)
    } else if !(stdio || remote) {
        Some("MCP server type must be 'stdio', 'http' or 'sse' (or omitted for stdio)"@)
    } else if stdio && is_blank(str_or_empty(spec, "command"@)) {
        Some("stdio MCP server is missing command"@)
    } else if remote && is_blank(str_or_empty(spec, "url"@)) {
        Some("http/sse MCP server is missing url"@)
    } else {
        None
    }
}

/// `validate_server_spec`: a server definition must be valid, as
/// `server_spec_valid` says; otherwise the error names the first problem.
pub fn validate_server_spec(spec: &JsonValue) -> (r: Result<(), AppError>)
    ensures
        r is Ok <==> server_spec_valid(spec@),
        match server_spec_problem(spec@) {
            None => r is Ok,
            Some(m) => r matches Err(AppError::McpValidation(x)) && x@ == m,
        },
{
    proof {
        reveal_strlit("");
    }
    if !spec.is_object() {
        return Err(AppError::McpValidation("MCP server definition must be a JSON object".to_owned()));
    }
    let t = match spec.get("type") {
        Some(v) => v.as_str(),
        None => None,
    };
    let stdio = match t {
        None => true,
        Some(s) => str_eq(s, "stdio"),
    };
    let http = match t {
        None => false,
        Some(s) => str_eq(s, "http"),
    };
    let sse = match t {
        None => false,
        Some(s) => str_eq(s, "sse"),
    };
    if !(stdio || http || sse) {
        return Err(
            AppError::McpValidation(
                "MCP server type must be 'stdio', 'http' or 'sse' (or omitted for stdio)".to_owned(),
            ),
        );
    }
    if stdio && str_is_blank(field_str(spec, "command")) {
        return Err(AppError::McpValidation("stdio MCP server is missing command".to_owned()));
    }
    if (http || sse) && str_is_blank(field_str(spec, "url")) {
        return Err(AppError::McpValidation("http/sse MCP server is missing url".to_owned()));
    }
    Ok(())
}

/// The server definition of an entry of the per-application configuration:
/// the object under `server`, where the entry is an object that has one.
pub open spec fn entry_server(entry: JsonV) -> Option<JsonV> {
    match json_get(entry, "server"@) {
        Some(JsonV::Obj(e)) => if entry is Obj {
            Some(JsonV::Obj(e))
        } else {
            None
        },
        _ => None,
    }
}

/// What is wrong with an entry whose server definition is wanted: not an
/// object; no `server`; a `server` that is not an object.
pub open spec fn entry_problem(entry: JsonV) -> Option<Seq<char>> {
    if !(entry is Obj) {
        Some("MCP server entry must be a JSON object"@)
    } else {
        match json_get(entry, "server"@) {
            None => Some("MCP server entry is missing server"@),
            Some(JsonV::Obj(_)) => None,
            Some(_) => Some("MCP server field must be a JSON object"@),
        }
    }
}

/// `extract_server_spec`: the server definition of an entry.
pub fn extract_server_spec(entry: &JsonValue) -> (r: Result<JsonValue, AppError>)
    ensures
        match entry_server(entry@) {
            Some(s) => r matches Ok(v) && v@ == s,
            None => r is Err,
        },
        entry_problem(entry@) matches Some(m) ==> (r matches Err(AppError::McpValidation(x)) && x@
            == m),
{
    if !entry.is_object() {
        return Err(AppError::McpValidation("MCP server entry must be a JSON object".to_owned()));
    }
    match entry.get("server") {
        None => Err(AppError::McpValidation("MCP server entry is missing server".to_owned())),
        Some(server) => {
            if server.is_object() {
                Ok(server.copy())
            } else {
                Err(AppError::McpValidation("MCP server field must be a JSON object".to_owned()))
            }
        },
    }
}

} // verus!
