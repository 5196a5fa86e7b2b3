# soul_memory

Memory for an agent: an embedding cache in the key/value store of a soul server,
and memory files that the server writes. Where the server fails, a local store and
a local memory directory step in, unless the strict mode is asked for.

- `src/` is the library, verified with Verus. It holds the decisions: keys, URLs and
  bodies of requests, what a response means, when to fall back, which paths are
  refused, and what a file holds after a write. Its `law_*` proof functions state
  what holds of the library as a whole.
- `app/` does what the library says: it sends the requests and touches the files.
- `tests/` runs the library on concrete values.

An embedding's numbers are held as the bit patterns of `f32` values.
