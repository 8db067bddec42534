# watchtower

watchtower tracks container image repositories in OCI registries. It
polls each tracked repository's tag list, records which digest every tag
points at over time, and serves what it learned: a JSON API for consumers
(repos with their tags and digest histories, a lookup by registry and
name, and an event feed of added, moved and removed tags), and a small
HTML interface for people.

Admins can rule versions out of version matching ("20.04.1", or a family
such as "14.3.*"); tags naming an excluded version stay tracked but are
left out of what consumers read. Some publishers need no rule:
linuxserver.io tags that carry no build number are aliases, not releases.

## Layout

- `src/` is the library, verified with Verus: how tags are classified
  (which are noise, which name a version, which are immutable), the
  exclusion rules, when a repo is due for a refresh and how failures back
  off, what a refresh fetches and records, the event feed's paging, the
  hydrated API records, and the HTML the pages are made of. Its contracts
  state each function's result; its proof functions state the properties
  that span functions.
- `app/` is the service around it: the SQLite database, the registry
  client, the HTTP server and the poller loop. It reads and writes, and
  asks the library what to do.
- `tests/` exercises the library on concrete values.
