# confuse

A fuser 0.17-style filesystem API whose Windows runtime is Dokan. Dokan calls
a filesystem with Windows paths and handle contexts; a fuser-style filesystem
expects inodes, file handles, requests and reply objects. Everything that
decides how one becomes the other is a verified library; the runtime around it
only performs the calls.

## Layout

- `src/` — the verified library (Verus).
  - `types`, `flags`, `errno`, `consts`: the value types of the API (attributes,
    kernel configuration and its validated setters, open flags, init
    capabilities, bit sets, error numbers).
  - `paths`, `text`: Windows path splitting, normalisation to cache keys, and
    the re-keying of open state after a rename.
  - `resolver`, `assoc`: the TTL-bounded path and attribute cache, with the
    accounting of outstanding `lookup` references that must be forgotten.
  - `mount_options`: parsing of `-o`-style options, conflict checks and the
    mapping onto Dokan mount settings.
  - `request`, `experimental`: request identities and request ids.
  - `reply`: reply payloads and the byte-budgeted directory listing buffer.
  - `notify`, `bytes`: the wire frames of kernel notifications.
  - `security`: synthesised self-relative security descriptors and the mapping
    of extended attributes to NTFS streams.
  - `helpers`, `operations`, `adapter`, `session_state`: the decisions of the
    Dokan callbacks (status codes, create dispositions, delete prechecks,
    write planning, path walks, listing entries, locks, lifecycle).
- `tests/` — tests of the library.
- `app/` — the runtime: the `Filesystem` trait, reply objects, notifier,
  session and the Dokan handler, which drive the library's decisions.
