# xm_format

Support for Ximalaya XM audio files: recognising them, reading their metadata from the
ID3v2 tag, validating them, suggesting output names, and decrypting them.

An XM file is `[ID3v2 tag] [encrypted chunk] [plain audio]`. Only the chunk after the
tag is encrypted (AES-256-CBC with the XM key and an IV from `TSRC`/`TENC`, then the XM
transform module, then Base64 with the `TSSE` prefix); the rest of the file is copied as
it is, which makes streaming decryption cheap.

## Layout

- `src/` — the library, verified with Verus:
  - `text.rs` character-level helpers (trimming, searching, decimal numbers);
  - `codec.rs` hex, UTF-8, AES-256-CBC and Base64, each behind a small trusted wrapper;
  - `wasm_runtime.rs` the calling protocol of the XM transform module over wasmer;
  - `xm.rs` the tag model, reading the tag, `XmInfo`, and the decryption pipeline;
  - `detector.rs`, `metadata.rs`, `plugin.rs`, `streaming.rs` detection, validation,
    metadata, decryption plans and the decisions of the streaming copy.
- `tests/` — tests of the library.
- `app/` — file and stream I/O, progress callbacks, serde types and the C entry points
  (`plugin_invoke`, `plugin_free`).

ID3v2 parsing itself (frame layout, text encodings, unsynchronisation) is not this
project's logic, so the tag is read with the `id3` crate; the library turns what it reads
into its own tag model, and the XM rules work on that model.

The transform module is proprietary and is not shipped with this project: the library takes
its bytes as an argument, and `app/` loads them at run time from the file named by
`XM_WASM_PATH` (default `xm.wasm`).
