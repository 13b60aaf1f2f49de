# worker_lib

The verified core of a sandboxed plugin worker. The worker shares a memory
region with its host: a 64-byte header (magic number, version, ring size and
the control words of two channels) followed by a payload holding two byte
rings, one per direction.

- `src/ring.rs`: copying into and out of a ring, and the model of the bytes
  pending between a reader and a writer, with the lemmas that reading takes
  pending bytes and writing appends to them.
- `src/channel.rs`: one channel's control words, locating its ring in the
  payload, and the read and write operations on it; `lemma_write_then_read`
  states that bytes come out in the order they went in.
- `src/layout.rs`: the header's byte format and its validation.
- `src/os.rs`: mapping access marks and NUL-terminated UTF-16 names.
- `src/linux.rs`: the Landlock ruleset and the seccomp deny list that confine
  the worker, built on the `landlock` and `seccompiler` crates.

`app/` holds what Verus does not check: mapping the region, the atomic loads
and stores of the control words, the `std::io::Read`/`Write` impls, and the
worker's `main`.
