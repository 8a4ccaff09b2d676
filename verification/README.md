# ceph

A Ceph client library whose core is verified with Verus.

- `src/` is the verified library: release names and their order, the
  monitor command builder, a JSON document model with key-path lookup and
  compact rendering, the trivial-map (tmap) wire format, the admin-socket
  framing, the streaming-read policy, and the decisions taken on librados
  return codes, buffers and replies. Each public function states in its
  contract what it returns; the laws that relate several calls (for
  example that reading back a tmap or a pool list gives what was written,
  or that setting a command argument and reading it gives the value set)
  are public proof functions.
- `app/` holds what Verus does not check: the librados bindings, the
  handles on a cluster, a pool and a striper, sockets, processes, async
  streams, `serde` for the records the cluster sends, and the commands that
  carry floating-point weights.
- `tests/` runs the library on concrete values.

The library takes the error numbers `ENOENT` (2) and `ERANGE` (34) as
librados reports them on the systems it runs on: Linux, macOS and the BSDs.
Other targets of the `libc` crate (WASI, emscripten, Haiku, Hurd, VxWorks)
number these errors differently, and the library's statements about
return codes are not meant for them.
