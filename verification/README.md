# ccswitch_live

Live configuration and session support for two coding agents, verified with
Verus:

- **DeepSeek Harness (`dsh`)**: the provider route in `settings.yaml`, the key
  in `.credentials.yaml`, and the JSONL session logs (plain or Zstandard).
- **Kimi Code CLI**: the provider, model and `default_model` in `config.toml`,
  the MCP servers of `mcp.json`, and the session directories with their
  `state.json` and `wire.jsonl`.

## Layout

- `src/` — the verified library. Documents are held as trees of plain values
  (`json`, `yaml`, `toml_tree`) with views, over which every public function
  states its result. serde_json, serde_yaml, toml, toml_edit and zstd are
  called through small trusted wrappers (`json_text`, `yaml_text`,
  `toml_text`, and the decoder in `session_manager::providers::dsh`).
  - `dsh_config`, `kimicode_config`: reading and writing the live files, from
    and to their text.
  - `mcp`: the shape of a server definition, and the synchronisation and
    import of Kimi Code's MCP servers.
  - `session_manager::providers`: which files are sessions, what each is
    listed as, and the messages of a log.
  - The laws (`law_*` proof functions) state what holds across calls, over
    the documents as trees: what a write then a read gives back, what a
    write leaves alone, that an import done twice changes nothing, that no
    session is listed twice. The text that a write returns is tied to the
    written document through the outside crate's rendering of it; that
    reading such a text gives back the same tree is the outside crates'
    behaviour and is not stated.
- `app/` — the file system and environment around the library: locating the
  directories, reading and writing files, walking session directories.
- `tests/` — tests of the library on concrete values.
