# heddle

The decision logic of the Heddle terminal, written in Verus and proved against its
contracts.

`src/` is the verified library. Each module holds one area of the application's logic,
stated over mathematical models (`Seq`, `Map`, spec functions) and proved with Verus:

- `version`, `version_order`, `update_guard`: strict parsing and ordering of release
  versions, and the refusal of any staged update that is not strictly newer.
- `update_consent`, `release_manifest`: whether, and from where, release information may be
  read.
- `settings_value`, `tab_settings`, `key_migration`, `settings_file`: how settings are
  stored, and the one-time rename of the `[warpify]` settings table, planned on a model of
  the file and carried out on the file's text through `toml_edit`.
- `keymap`, `keyboard`: the user's stored keybindings and renamed action IDs.
- `harness`, `local_harness_setup`, `launch`: the harness catalog, auth-secret state, and
  starting local child harnesses.
- `tools`, `routing`, `repos`, `handoff`: what an agent request declares, where a follow-up
  is routed, and which cloud environment a handoff picks.
- `text`: character-level string helpers the rest is built on.

Public proof functions named `lemma_*` state the library's laws; their doc comments say
each law in words.

`tests/` exercises the library on concrete values. `app/` is the `heddle` command around
it: reading and writing files, running `git` and `curl`, `serde` conversions, and nothing
that decides.
