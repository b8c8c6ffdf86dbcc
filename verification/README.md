# gpt

Headers of GUID partition tables: making them, encoding and decoding them, and
reading and writing them on a disk. The library in `src/` is verified with Verus.

- `header` is the header itself and its 92 bytes, `codec` what encoding and
  decoding have to do with each other.
- `layout` makes a header for a disk.
- `device` says what is asked of a disk. `find`, `table`, `read`, `write` and
  `create` are pieces of work that proceed step by step, from one answer of the
  disk to the next request. `laws` is about whole runs of them.
- `cursor`, `guid` and `checksum` hold what is relied on of the crates
  `simple_bytes`, `uuid` and `crc`.

`app/` performs the requests on files and other devices.
