# vexora

The verified core of a Minecraft launcher: what its schema types mean, how it looks
for the data of other launchers to import from, what the import page lets through,
how server lists are sorted, and how the player model keeps its decoded skin.

- `src/` is the library, verified with Verus. `loader`, `modrinth`, `curseforge`,
  `modification`, `mrpack` and `manual_download` hold the schema types and their
  rules; `launcher_dirs` and `launcher_search` the search for another launcher's data
  directory; `import_page` the import page's state; `servers` the server table;
  `settings` the language setting; `player_model` the skin and cape images.
  `text`, `ordering`, `paths` and `fx_set` hold string, path and set helpers,
  among them the trusted wrappers of `std`, `rustc_hash` and `image`.
- `app/` is ordinary Rust around it: serde forms of the schema types, the
  file-system probing of the import page, the download request channels, and the
  floating-point camera arithmetic of the player model.
- `tests/` runs the library on concrete values.
