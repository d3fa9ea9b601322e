# apicula

A library for Nintendo DS 3D model files (the Nitro `.nsbmd`, `.nsbtx`,
`.nsbca` and `.nsbtp` formats), with its behaviour stated in contracts and
proved with Verus.

## Layout

- `src/` is the verified library:
  - `util/` — a byte cursor, bit fields, decimal and hexadecimal text, and
    picking names that are not taken yet.
  - `nds/` — the DS texture parameters and formats, the texture decoder and
    the GPU command parser.
  - `decompress/` — LZ77 (types `0x10` and `0x11`) decompression.
  - `nitro/` — the resources read out of Nitro files.
  - `db.rs`, `connection.rs` — the database of resources and the heuristics
    that tie models to textures, palettes, animations and patterns.
  - `geometry/`, `convert/` — index buffers and draw calls built from GPU
    commands, polygon encoding, glTF buffers, buffer views, GLB files and the
    material table, COLLADA text (materials, images, effects, polylists), and
    the names of the images a conversion writes.
  - `extract.rs` — finding containers in ROMs and naming the files they are
    saved to.
  - `cli.rs` — the command line.
  - `info.rs`, `logger.rs` — the `info` command's notes and the log level.
- `tests/` runs the library on concrete inputs.
- `app/` is the program around the library: the command line, logging,
  help texts, the file system, and the floating point side of materials,
  animations and skin weights.
