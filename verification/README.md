# dot001

A toolkit for Blender `.blend` files, verified with Verus: it opens files
(plain or Zstandard-compressed), reads their SDNA catalogue and blocks, reads
fields through the catalogue, traces the dependencies between blocks, edits ID
names and library paths in place, writes minimal files from a seed catalogue,
and formats the events and output lines of its command line.

Layout:

- `src/` is the verified library. Each module states its behaviour over
  mathematical models (`Seq`, `Map`, spec functions and views) and proves it:
  `header`, `scan`, `sdna`, `dna`, `blendfile` and `index` read files;
  `fieldview`, `traversal` and `expanders` read fields and follow pointers;
  `tracer` traces dependencies; `editor` and `writer` change and write files;
  `events`, `formatting`, `pretty` and `policy` describe events; `cli` holds
  the decisions of the command line. Calls into outside crates (ahash,
  twox-hash, zstd, chrono, text_trees, pathdiff and a few std functions) stand behind
  small trusted wrappers whose contracts say what those crates document.
- `tests/` runs the library on small files built byte by byte.
- `app/` is the command line: argument parsing, file input and output, colors
  and JSON serialization around the library.
