//! Kimi Code MCP synchronisation and import: Kimi Code declares its
//! user-level MCP servers in `mcp.json` under `mcpServers`, stdio servers
//! with `command`/`args`/`env`/`cwd`, HTTP servers with `url`.
use vstd::prelude::*;
use crate::app_config::{servers_view, McpApps, McpConfig, McpServer, McpServerV, MultiAppConfig};
use crate::assoc::{assoc_get, assoc_remove, assoc_set};
use crate::json::{entries_view, json_bool, json_get, JsonV, JsonValue};
use crate::mcp::validation::{entry_server, extract_server_spec, server_spec_valid, validate_server_spec};
use crate::text::str_eq;

verus! {

/// `should_sync_kimicode_mcp`: Kimi Code is set up when its directory or its
/// `mcp.json` exists; otherwise nothing is written or removed.
pub fn should_sync_kimicode_mcp(kimicode_dir_exists: bool, mcp_file_exists: bool) -> (r: bool)
    ensures
        r == (kimicode_dir_exists || mcp_file_exists),
{
    kimicode_dir_exists || mcp_file_exists
}

/// An entry of the per-application configuration is enabled.
pub open spec fn entry_enabled(e: JsonV) -> bool {
    json_bool(json_get(e, "enabled"@)) == Some(true)
}

/// The server definitions of the enabled entries that have a valid one, by
/// id, in the order of the entries (a later entry replacing an earlier one
/// with the same id).
pub open spec fn enabled_servers(entries: Seq<(Seq<char>, JsonV)>) -> Seq<(Seq<char>, JsonV)>
    decreases entries.len(),
{
    if entries.len() == 0 {
        Seq::empty()
    } else {
        let rest = enabled_servers(entries.drop_last());
        let e = entries.last();
        if entry_enabled(e.1) && entry_server(e.1) is Some {
            assoc_set(rest, e.0, entry_server(e.1)->0)
        } else {
            rest
        }
    }
}

/// `collect_enabled_servers`: the server definitions of the enabled entries.
pub fn collect_enabled_servers(cfg: &McpConfig) -> (r: Vec<(String, JsonValue)>)
    ensures
        entries_view(r@) == enabled_servers(entries_view(cfg.servers@)),
{
    let mut out: Vec<(String, JsonValue)> = Vec::new();
    let mut i: usize = 0;
    assert(entries_view(out@) =~= Seq::empty());
    assert(entries_view(cfg.servers@).take(0) =~= Seq::empty());
    while i < cfg.servers.len()
        invariant
            i <= cfg.servers@.len(),
            entries_view(out@) == enabled_servers(entries_view(cfg.servers@).take(i as int)),
        decreases cfg.servers@.len() - i,
    {
        let ghost all = entries_view(cfg.servers@);
        assert(all.take(i + 1).drop_last() =~= all.take(i as int));
        assert(all.take(i + 1).last() == all[i as int]);
        let entry = &cfg.servers[i].1;
        let enabled = match entry.get("enabled") {
            Some(v) => match v.as_bool() {
                Some(b) => b,
                None => false,
            },
            None => false,
        };
        if enabled {
            match extract_server_spec(entry) {
                Ok(spec) => {
                    crate::json::entries_set(&mut out, cfg.servers[i].0.as_str(), spec);
                },
                Err(_) => {},
            }
        }
        i = i + 1;
    }
    assert(entries_view(cfg.servers@).take(cfg.servers@.len() as int) =~= entries_view(
        cfg.servers@,
    ));
    out
}

/// `sync_enabled_to_kimicode`: the servers map to write to `mcp.json`, the
/// enabled servers of the per-application configuration (when Kimi Code is set up, as
/// `should_sync_kimicode_mcp` says).
pub fn sync_enabled_to_kimicode(config: &MultiAppConfig) -> (r: Vec<(String, JsonValue)>)
    ensures
        entries_view(r@) == enabled_servers(entries_view(config.mcp.claude.servers@)),
{
    collect_enabled_servers(&config.mcp.claude)
}

/// `sync_single_server_to_kimicode`: the servers map of `mcp.json` with one
/// server set.
pub fn sync_single_server_to_kimicode(
    current: &Vec<(String, JsonValue)>,
    id: &str,
    server_spec: &JsonValue,
) -> (r: Vec<(String, JsonValue)>)
    ensures
        entries_view(r@) == assoc_set(entries_view(current@), id@, server_spec@),
        assoc_get(entries_view(r@), id@) == Some(server_spec@),
        forall|other: Seq<char>|
            other != id@ ==> #[trigger] assoc_get(entries_view(r@), other) == assoc_get(
                entries_view(current@),
                other,
            ),
{
    let mut out = crate::json::copy_entries(current);
    crate::json::entries_set(&mut out, id, server_spec.copy());
    proof {
        crate::assoc::lemma_assoc_get_set_same(entries_view(current@), id@, server_spec@);
        assert forall|other: Seq<char>| other != id@ implies #[trigger] assoc_get(
            entries_view(out@),
            other,
        ) == assoc_get(entries_view(current@), other) by {
            crate::assoc::lemma_assoc_get_set_other(entries_view(current@), id@, server_spec@, other);
        }
    }
    out
}

/// `remove_server_from_kimicode`: the servers map of `mcp.json` without one
/// server.
pub fn remove_server_from_kimicode(current: &Vec<(String, JsonValue)>, id: &str) -> (r: Vec<(String, JsonValue)>)
    ensures
        entries_view(r@) == assoc_remove(entries_view(current@), id@),
        assoc_get(entries_view(r@), id@) is None,
        forall|other: Seq<char>|
            other != id@ ==> #[trigger] assoc_get(entries_view(r@), other) == assoc_get(
                entries_view(current@),
                other,
            ),
{
    let out = crate::json::entries_remove(current, id);
    proof {
        crate::assoc::lemma_assoc_get_remove_same(entries_view(current@), id@);
        assert forall|other: Seq<char>| other != id@ implies #[trigger] assoc_get(
            entries_view(out@),
            other,
        ) == assoc_get(entries_view(current@), other) by {
            crate::assoc::lemma_assoc_get_remove_other(entries_view(current@), id@, other);
        }
    }
    out
}

/// The apps of a server imported from Kimi Code: Kimi Code alone.
pub open spec fn kimi_only_apps() -> McpApps {
    McpApps {
        claude: false,
        codex: false,
        gemini: false,
        grokbuild: false,
        opencode: false,
        hermes: false,
        kimicode: true,
    }
}

/// A server imported from Kimi Code.
pub open spec fn imported_server(id: Seq<char>, spec: JsonV) -> McpServerV {
    McpServerV {
        id: id,
        name: id,
        server: spec,
        apps: kimi_only_apps(),
        description: None,
        homepage: None,
        docs: None,
        tags: Seq::empty(),
    }
}

/// A server with Kimi Code enabled too.
pub open spec fn with_kimicode(s: McpServerV) -> McpServerV {
    McpServerV {
        apps: McpApps {
            claude: s.apps.claude,
            codex: s.apps.codex,
            gemini: s.apps.gemini,
            grokbuild: s.apps.grokbuild,
            opencode: s.apps.opencode,
            hermes: s.apps.hermes,
            kimicode: true,
        },
        ..s
    }
}

/// One server of `mcp.json` imported: an invalid definition is skipped; a
/// known id gets Kimi Code enabled (a change only where it was not); an
/// unknown id is added. The count is of the changes.
pub open spec fn import_step(
    st: (Seq<(Seq<char>, McpServerV)>, nat),
    id: Seq<char>,
    spec: JsonV,
) -> (Seq<(Seq<char>, McpServerV)>, nat) {
    if !server_spec_valid(spec) {
        st
    } else {
        match assoc_get(st.0, id) {
            Some(existing) => if existing.apps.kimicode {
                st
            } else {
                (assoc_set(st.0, id, with_kimicode(existing)), st.1 + 1)
            },
            None => (assoc_set(st.0, id, imported_server(id, spec)), st.1 + 1),
        }
    }
}

/// All the servers of `mcp.json` imported, in order.
pub open spec fn import_all(
    servers: Seq<(Seq<char>, McpServerV)>,
    map: Seq<(Seq<char>, JsonV)>,
) -> (Seq<(Seq<char>, McpServerV)>, nat)
    decreases map.len(),
{
    if map.len() == 0 {
        (servers, 0)
    } else {
        let st = import_all(servers, map.drop_last());
        import_step(st, map.last().0, map.last().1)
    }
}

/// An import counts at most one change for each server of `mcp.json`.
pub proof fn law_import_counts_each_server_at_most_once(servers: Seq<(Seq<char>, McpServerV)>, map: Seq<(Seq<char>, JsonV)>)
    ensures
        import_all(servers, map).1 <= map.len(),
    decreases map.len(),
{
    if map.len() > 0 {
        law_import_counts_each_server_at_most_once(servers, map.drop_last());
    }
}

fn find_server(servers: &Vec<(String, McpServer)>, id: &str) -> (r: Option<usize>)
    ensures
        match r {
            Some(i) => i < servers@.len() && servers_view(servers@)[i as int].0 == id@
                && crate::assoc::no_key_before(servers_view(servers@), id@, i as int),
            None => crate::assoc::no_key_before(servers_view(servers@), id@, servers@.len() as int),
        },
{
    let mut i: usize = 0;
    while i < servers.len()
        invariant
            i <= servers@.len(),
            crate::assoc::no_key_before(servers_view(servers@), id@, i as int),
        decreases servers@.len() - i,
    {
        if str_eq(servers[i].0.as_str(), id) {
            return Some(i);
        }
        i = i + 1;
    }
    None
}

/// `import_from_kimicode` with the servers map read from `mcp.json`: import
/// each valid server into the unified configuration, and count the changes.
pub fn import_from_kimicode(config: &mut MultiAppConfig, map: &Vec<(String, JsonValue)>) -> (r: usize)
    ensures
        map@.len() == 0 ==> r == 0 && final(config).mcp.servers == old(config).mcp.servers,
        map@.len() > 0 ==> (final(config).mcp.servers matches Some(s) && (servers_view(s@), r as nat)
            == import_all(
            match old(config).mcp.servers {
                Some(s0) => servers_view(s0@),
                None => Seq::empty(),
            },
            entries_view(map@),
        )),
        final(config).mcp.claude == old(config).mcp.claude,
{
    if map.len() == 0 {
        return 0;
    }
    let mut servers = match config.mcp.servers.take() {
        Some(s) => s,
        None => Vec::new(),
    };
    let ghost before = servers_view(servers@);
    assert(before == match old(config).mcp.servers {
        Some(s0) => servers_view(s0@),
        None => Seq::empty(),
    }) by {
        if old(config).mcp.servers is None {
            assert(servers_view(servers@) =~= Seq::empty());
        }
    }
    let mut changed: usize = 0;
    let mut i: usize = 0;
    assert(entries_view(map@).take(0) =~= Seq::empty());
    while i < map.len()
        invariant
            i <= map@.len(),
            changed <= i,
            (servers_view(servers@), changed as nat) == import_all(
                before,
                entries_view(map@).take(i as int),
            ),
        decreases map@.len() - i,
    {
        let ghost all = entries_view(map@);
        assert(all.take(i + 1).drop_last() =~= all.take(i as int));
        assert(all.take(i + 1).last() == all[i as int]);
        let id = &map[i].0;
        let spec = &map[i].1;
        let ghost sv = servers_view(servers@);
        if validate_server_spec(spec).is_ok() {
            match find_server(&servers, id.as_str()) {
                Some(j) => {
                    proof {
                        crate::assoc::lemma_assoc_get_at(sv, id@, j as int);
                    }
                    if !servers[j].1.apps.kimicode {
                        let (k, mut srv) = servers.remove(j);
                        let ghost old_srv = srv@;
                        srv.apps.kimicode = true;
                        assert(srv@ == with_kimicode(old_srv)) by {
                            assert(srv@.tags =~= old_srv.tags);
                        }
                        servers.insert(j, (k, srv));
                        proof {
                            crate::assoc::lemma_assoc_set_at(sv, id@, with_kimicode(old_srv), j as int);
                            assert(servers_view(servers@) =~= sv.update(
                                j as int,
                                (id@, with_kimicode(old_srv)),
                            ));
                        }
                        changed = changed + 1;
                    }
                },
                None => {
                    proof {
                        crate::assoc::lemma_assoc_get_none(sv, id@);
                        crate::assoc::lemma_assoc_set_absent(sv, id@, imported_server(id@, spec@));
                    }
                    let srv = McpServer {
                        id: id.clone(),
                        name: id.clone(),
                        server: spec.copy(),
                        apps: McpApps {
                            claude: false,
                            codex: false,
                            gemini: false,
                            grokbuild: false,
                            opencode: false,
                            hermes: false,
                            kimicode: true,
                        },
                        description: None,
                        homepage: None,
                        docs: None,
                        tags: Vec::new(),
                    };
                    assert(srv@ == imported_server(id@, spec@)) by {
                        assert(srv@.tags =~= Seq::<Seq<char>>::empty());
                    }
                    servers.push((id.clone(), srv));
                    proof {
                        assert(servers_view(servers@) =~= sv.push((id@, imported_server(id@, spec@))));
                    }
                    changed = changed + 1;
                },
            }
        }
        i = i + 1;
    }
    assert(entries_view(map@).take(map@.len() as int) =~= entries_view(map@));
    config.mcp.servers = Some(servers);
    changed
}

/// Importing the servers of `mcp.json` leaves every valid one present in the
/// unified configuration with Kimi Code enabled.
pub proof fn law_import_enables_every_valid_server(
    servers: Seq<(Seq<char>, McpServerV)>,
    map: Seq<(Seq<char>, JsonV)>,
    j: int,
)
    requires
        0 <= j < map.len(),
        server_spec_valid(map[j].1),
    ensures
        assoc_get(import_all(servers, map).0, map[j].0) matches Some(v) && v.apps.kimicode,
    decreases map.len(),
{
    let n = map.len() as int;
    let prefix = map.drop_last();
    let st = import_all(servers, prefix);
    let id = map[j].0;
    if j == n - 1 {
        match assoc_get(st.0, id) {
            Some(existing) => {
                if !existing.apps.kimicode {
                    crate::assoc::lemma_assoc_get_set_same(st.0, id, with_kimicode(existing));
                }
            },
            None => {
                crate::assoc::lemma_assoc_get_set_same(st.0, id, imported_server(id, map[j].1));
            },
        }
    } else {
        assert(prefix[j] == map[j]);
        law_import_enables_every_valid_server(servers, prefix, j);
        let last = map.last();
        if last.0 == id {
            // the server is enabled already, so the last step changes nothing
        } else if server_spec_valid(last.1) {
            match assoc_get(st.0, last.0) {
                Some(existing) => {
                    if !existing.apps.kimicode {
                        crate::assoc::lemma_assoc_get_set_other(st.0, last.0, with_kimicode(existing), id);
                    }
                },
                None => {
                    crate::assoc::lemma_assoc_get_set_other(st.0, last.0, imported_server(last.0, last.1), id);
                },
            }
        }
    }
}

/// Importing the servers of `mcp.json` leaves every server whose id the map
/// does not hold as it was.
pub proof fn law_import_keeps_other_servers(
    servers: Seq<(Seq<char>, McpServerV)>,
    map: Seq<(Seq<char>, JsonV)>,
    id: Seq<char>,
)
    requires
        forall|k: int| 0 <= k < map.len() ==> #[trigger] map[k].0 != id,
    ensures
        assoc_get(import_all(servers, map).0, id) == assoc_get(servers, id),
    decreases map.len(),
{
    if map.len() > 0 {
        let prefix = map.drop_last();
        assert forall|k: int| 0 <= k < prefix.len() implies #[trigger] prefix[k].0 != id by {
            assert(prefix[k] == map[k]);
        }
        law_import_keeps_other_servers(servers, prefix, id);
        let st = import_all(servers, prefix);
        let last = map.last();
        assert(map[map.len() - 1].0 != id);
        if server_spec_valid(last.1) {
            match assoc_get(st.0, last.0) {
                Some(existing) => {
                    if !existing.apps.kimicode {
                        crate::assoc::lemma_assoc_get_set_other(st.0, last.0, with_kimicode(existing), id);
                    }
                },
                None => {
                    crate::assoc::lemma_assoc_get_set_other(st.0, last.0, imported_server(last.0, last.1), id);
                },
            }
        }
    }
}

proof fn lemma_import_settled(
    servers: Seq<(Seq<char>, McpServerV)>,
    map: Seq<(Seq<char>, JsonV)>,
    k: int,
)
    requires
        0 <= k <= map.len(),
        forall|j: int|
            0 <= j < map.len() && server_spec_valid(#[trigger] map[j].1) ==> (assoc_get(
                servers,
                map[j].0,
            ) matches Some(v) && v.apps.kimicode),
    ensures
        import_all(servers, map.take(k)) == (servers, 0nat),
    decreases k,
{
    if k == 0 {
        assert(map.take(0) =~= Seq::<(Seq<char>, JsonV)>::empty());
    } else {
        lemma_import_settled(servers, map, k - 1);
        assert(map.take(k).drop_last() =~= map.take(k - 1));
        assert(map.take(k).last() == map[k - 1]);
    }
}

/// Importing the same servers of `mcp.json` a second time changes nothing and
/// counts no change.
pub proof fn law_import_twice_changes_nothing(
    servers: Seq<(Seq<char>, McpServerV)>,
    map: Seq<(Seq<char>, JsonV)>,
)
    ensures
        import_all(import_all(servers, map).0, map) == (import_all(servers, map).0, 0nat),
{
    let once = import_all(servers, map).0;
    assert forall|j: int|
        0 <= j < map.len() && server_spec_valid(#[trigger] map[j].1) implies (assoc_get(
        once,
        map[j].0,
    ) matches Some(v) && v.apps.kimicode) by {
        law_import_enables_every_valid_server(servers, map, j);
    }
    lemma_import_settled(once, map, map.len() as int);
    assert(map.take(map.len() as int) =~= map);
}

/// Removing a server that was just set leaves no server under its id and
/// every other server as it was before the set.
pub proof fn law_set_then_remove_server(
    current: Seq<(Seq<char>, JsonV)>,
    id: Seq<char>,
    spec: JsonV,
    other: Seq<char>,
)
    ensures
        assoc_get(assoc_remove(assoc_set(current, id, spec), id), id) is None,
        other != id ==> assoc_get(assoc_remove(assoc_set(current, id, spec), id), other)
            == assoc_get(current, other),
{
    let set = assoc_set(current, id, spec);
    crate::assoc::lemma_assoc_get_remove_same(set, id);
    if other != id {
        crate::assoc::lemma_assoc_get_remove_other(set, id, other);
        crate::assoc::lemma_assoc_get_set_other(current, id, spec, other);
    }
}

/// `new` is `old` with, at most, Kimi Code enabled: every other field and
/// every other application's flag as it was.
pub open spec fn same_but_kimicode(old: McpServerV, new: McpServerV) -> bool {
    &&& new.id == old.id
    &&& new.name == old.name
    &&& new.server == old.server
    &&& new.description == old.description
    &&& new.homepage == old.homepage
    &&& new.docs == old.docs
    &&& new.tags == old.tags
    &&& new.apps.claude == old.apps.claude
    &&& new.apps.codex == old.apps.codex
    &&& new.apps.gemini == old.apps.gemini
    &&& new.apps.grokbuild == old.apps.grokbuild
    &&& new.apps.opencode == old.apps.opencode
    &&& new.apps.hermes == old.apps.hermes
    &&& (old.apps.kimicode ==> new.apps.kimicode)
}

/// Importing from `mcp.json` changes a server that was there before only by
/// enabling Kimi Code: its definition, its other fields and the flags of all
/// other applications stay as they were, and it is enabled for Kimi Code
/// when `mcp.json` holds a valid definition under its id.
pub proof fn law_import_only_enables_kimicode(
    servers: Seq<(Seq<char>, McpServerV)>,
    map: Seq<(Seq<char>, JsonV)>,
    id: Seq<char>,
    old: McpServerV,
)
    requires
        assoc_get(servers, id) == Some(old),
    ensures
        assoc_get(import_all(servers, map).0, id) matches Some(new) && same_but_kimicode(old, new),
    decreases map.len(),
{
    if map.len() > 0 {
        let prefix = map.drop_last();
        law_import_only_enables_kimicode(servers, prefix, id, old);
        let st = import_all(servers, prefix);
        let cur = assoc_get(st.0, id)->0;
        let last = map.last();
        if server_spec_valid(last.1) {
            match assoc_get(st.0, last.0) {
                Some(existing) => {
                    if !existing.apps.kimicode {
                        if last.0 == id {
                            crate::assoc::lemma_assoc_get_set_same(st.0, id, with_kimicode(existing));
                            assert(existing == cur);
                        } else {
                            crate::assoc::lemma_assoc_get_set_other(st.0, last.0, with_kimicode(existing), id);
                        }
                    }
                },
                None => {
                    assert(last.0 != id);
                    crate::assoc::lemma_assoc_get_set_other(
                        st.0,
                        last.0,
                        imported_server(last.0, last.1),
                        id,
                    );
                },
            }
        }
    }
}

proof fn lemma_enabled_servers_absent(entries: Seq<(Seq<char>, JsonV)>, k: Seq<char>)
    requires
        forall|i: int| 0 <= i < entries.len() ==> #[trigger] entries[i].0 != k,
    ensures
        assoc_get(enabled_servers(entries), k) is None,
    decreases entries.len(),
{
    if entries.len() > 0 {
        let prefix = entries.drop_last();
        assert forall|i: int| 0 <= i < prefix.len() implies #[trigger] prefix[i].0 != k by {
            assert(prefix[i] == entries[i]);
        }
        lemma_enabled_servers_absent(prefix, k);
        let e = entries.last();
        assert(entries[entries.len() - 1].0 != k);
        if entry_enabled(e.1) && entry_server(e.1) is Some {
            crate::assoc::lemma_assoc_get_set_other(
                enabled_servers(prefix),
                e.0,
                entry_server(e.1)->0,
                k,
            );
        }
    }
}

/// The servers synchronised to Kimi Code, for entries with distinct ids (as
/// the configuration's map has them): an entry whose `enabled` is `true` and
/// whose `server` is an object is synchronised as exactly that object, with
/// nothing added or removed; any other entry is not synchronised at all.
pub proof fn law_sync_keeps_enabled_server_definitions(
    entries: Seq<(Seq<char>, JsonV)>,
    j: int,
)
    requires
        crate::assoc::keys_distinct(entries),
        0 <= j < entries.len(),
    ensures
        ({
            let e = entries[j].1;
            let synced = assoc_get(enabled_servers(entries), entries[j].0);
            &&& (e is Obj && json_get(e, "enabled"@) == Some(JsonV::Bool(true)) && json_get(
                e,
                "server"@,
            ) matches Some(JsonV::Obj(o))) ==> synced == json_get(e, "server"@)
            &&& !(e is Obj && json_get(e, "enabled"@) == Some(JsonV::Bool(true)) && json_get(
                e,
                "server"@,
            ) matches Some(JsonV::Obj(_))) ==> synced is None
        }),
    decreases entries.len(),
{
    let n = entries.len() as int;
    let prefix = entries.drop_last();
    let last = entries.last();
    let k = entries[j].0;
    assert(crate::assoc::keys_distinct(prefix)) by {
        assert forall|a: int, b: int| 0 <= a < b < prefix.len() implies prefix[a].0 != prefix[b].0 by {
            assert(prefix[a] == entries[a] && prefix[b] == entries[b]);
        }
    }
    if j == n - 1 {
        assert forall|i: int| 0 <= i < prefix.len() implies #[trigger] prefix[i].0 != k by {
            assert(prefix[i] == entries[i]);
        }
        lemma_enabled_servers_absent(prefix, k);
        if entry_enabled(last.1) && entry_server(last.1) is Some {
            crate::assoc::lemma_assoc_get_set_same(
                enabled_servers(prefix),
                k,
                entry_server(last.1)->0,
            );
        }
    } else {
        assert(prefix[j] == entries[j]);
        law_sync_keeps_enabled_server_definitions(prefix, j);
        assert(entries[n - 1].0 != k);
        if entry_enabled(last.1) && entry_server(last.1) is Some {
            crate::assoc::lemma_assoc_get_set_other(
                enabled_servers(prefix),
                last.0,
                entry_server(last.1)->0,
                k,
            );
        }
    }
}

} // verus!
