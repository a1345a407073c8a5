# ssh-transport

A russh-based SSH transport with a verified core: interactive sessions, dials
through jump hosts, port forwarding, SFTP, and host-key blob helpers.

## Layout

- `src/`: the library. What the transport decides and computes is here, in
  verified functions with contracts.
  - `known_hosts`: fingerprints and plausibility of host-key blobs
  - `host_key`: the host-key check of an endpoint
  - `connect`: transport settings, dial failures, the chain of hops
  - `auth`: credentials and the answers to them
  - `key_text`: the private key texts on which the key reader would panic
  - `channel`: what channel messages mean to a pipe, a shell, a command and a
    banner
  - `operations`: requests on channels, and how failures are reported
  - `session`: what a session holds, and the order of its teardown
  - `sftp`: file attributes, listings, open plans and chunks
- `tests/`: tests of the library, with the outside crates linked.
- `app/`: sockets, tasks and locks around the library.

## Trust

Calls into russh, russh-sftp, sha2, the crates that russh reads keys with, and
the standard library stand behind items
marked `external_body` or `assume_specification`, each with a comment that says
what is taken for granted. Everything else in `src/` is proved.
