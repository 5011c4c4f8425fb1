# hacc

Parsing and editing of MediaTek boot and security records, with every function's behaviour
stated as a contract and proved with Verus.

Layout of `src/`:

- `bytes.rs`, `text.rs`, `search.rs`, `checksum.rs`: little-endian fields, NUL-padded text
  fields, substring search (through `memchr`) and CRC-32 (through `crc32fast`).
- `common/lock_state.rs`, `common/seccfg.rs`, `common/rpmb.rs`: the seccfg and RPMB lock records,
  with read-after-write and write-after-read laws.
- `common/bootctrl.rs`: the A/B boot control record (slot metadata bit fields, active slot,
  checksum).
- `common/gfh/`: GFH files (FILE_INFO, BROM security config, tool authentication sections).
- `common/image.rs`: partition images (512-byte headers, walk, add and remove of partitions).
- `preloader/pl.rs`: preloader images (boot region layout, GFH file, EMI settings).
- `da.rs`: download agent files (header, entries, regions, stage lookup).

Each record type has a model made of plain values (`Seq`, integers, enums); the parsers are
specified against a `spec_parse` of the model, and the editors against the model they produce.
