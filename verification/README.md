# clouddesk

The decision logic of the CloudDesk web desktop service, written in Verus
with its behaviour stated as `requires` / `ensures` contracts and proved.

## Layout

- `src/` — the verified library, one module per concern:
  - `vfs`, `localfs`, `archive`, `acl`, `ospath` — virtual-path
    normalization, the typed local-file protocol (its refusals, requests,
    the filesystem calls a run asks for one by one, the search walk, the
    extraction log and its cleanup, and the answers), the archive-creation
    walk, archive entry admission and quotas, POSIX ACL parsing and
    `setfacl` specs, host path components;
  - `transfers`, `checksum`, `ssh`, `hostkeys` — the transfer job state
    machine and queue, streamed transfer checksums, SSH/SCP rules,
    `ssh-keyscan` output;
  - `wopi`, `office` — WOPI tokens, locks and saves; Collabora discovery
    parsing and its cache;
  - `browser`, `downloads`, `egress` — the isolated browser's tab and
    chooser state, download quotas, and the egress proxy's request and
    destination policy;
  - `terminal`, `code`, `vault`, `uploads`, `api`, `web` — terminal
    session steps, the Code runtime layout, vault metadata, resumable
    uploads, error answers, and request-level web rules;
  - `text`, `lexical`, `status`, `reason` — text helpers and markers.
- `tests/` — tests that run the library with its outside crates linked.
- `app/` — the service process: the egress proxy's network loop, the
  `cap-std` filesystem that performs the calls a local-file run asks for,
  with the archive and ACL tools, and
  the JSON shapes of the local-file protocol.
