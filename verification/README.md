# fbxcel

A library for FBX binary data, verified with Verus:

- `low`: FBX versions, the file header and the v7.4 node attribute types.
- `pull_parser`: a pull parser for FBX 7.4 and later binary documents held in
  memory, with typed attribute loaders (zlib-compressed arrays are decoded
  with `libflate`); the end of a document carries its footer.
- `writer`: a writer of FBX 7.4 and later binary documents (arrays are
  compressed with `libflate`).
- `tree`: an in-memory tree of nodes (backed by `indextree` and
  `string_interner`), its depth-first traversal, strict comparison, and a
  loader that builds it from a parser.
- `codec`: little-endian encoding through `byteorder`.
- `roundtrip`: laws relating what the writer writes to what the parser reads.

Floating-point attribute values are held by their bit patterns.

`app/` holds what stays outside verification: reading documents from and
writing them to `std::io` sources and sinks, float conversions, logging of
warnings, and the `Display` of errors, which shows their `message()`.
