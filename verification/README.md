# angle

Extracts a full Figura avatar from an exported `.moon` file:
`angle avatar.moon path/to/figura/avatars/avatar` writes `avatar.json`, the
Lua scripts, the PNG textures and one Blockbench model (`.bbmodel`) per
top-level model part.

- `src/` is the verified library: the walk over a model tree, the
  outline (elements and folder tree) built from it, the textures of a model,
  the named-blob map, file names and the command line. `src/laws.rs` states
  what the outline of a tree is, directly over the tree.
- `app/` is the program around it: reading the gzip'ed NBT file, writing
  files, running `stylua`, and the serde copies of the library's types.
- `tests/` exercises the library on concrete values.
