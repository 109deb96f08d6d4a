# almk

A C/C++ build tool in the manner of cargo: `almk new`, `build`, `run`,
`clean`, `add`, `rm` and `sync`, driven by an `Alumake.toml` manifest.

The library in `src/` holds the logic, specified and proved with Verus:

- `config`: the manifest types and the dependency-table edits of `add`/`rm`.
- `table`: a text-keyed map (no key twice) with its map view.
- `new`: the toolchain per language and the files of a fresh project.
- `compile`: source kinds, compiler/linker command lines, include flags,
  and the hash comparison that invalidates object files.
- `depfile`: the prerequisites listed in compiler-written `.d` files.
- `paths`: file names, stems, extensions and object paths as text.
- `hash`: SHA-256 (from the `sha2` crate) in lower-case hexadecimal.
- `sync`: what to fetch for each dependency and the record of fetched archives.
- `text`: lines, words and other character-level helpers.

`app/` is the command-line program: clap and serde copies of the library's
types, and the file, process, git, HTTP and zip work.
