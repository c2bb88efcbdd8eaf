# simply_ip_sync

A daemon that keeps IP threat-intelligence vaults in step. It ingests external feeds on a cron
schedule, delivers what it finds to one or more vaults over a signed HTTP API, replicates one vault
into others, and offers an authenticated administration API over its own database.

## Layout

- `src/` is the library, written and proved in Verus: parsing of feeds, the signed-request protocol,
  secrets at rest, replay protection, trusted proxies, permissions, delivery and replication as state
  machines, scheduling, retention, migrations as statements, and every decision of the
  administration API. It does no I/O: functions take plain values and return plain values or the
  next action to take.
- `app/` is the daemon around it: the HTTP server and client, the database, name lookups, timers,
  environment and logging. It performs the actions that the library decides on and hands back what
  came of them.
- `tests/` runs the library on concrete values, with the real outside crates linked.

## What is proved

Every public function of `src/` states in its `ensures` what it returns. Properties that span several
functions are public proof functions whose names begin with `law_`, each beside the functions it
speaks of: a sealed secret opens to what was sealed, a signature binds method, target, timestamp and
body, a used signature is refused while it is remembered, delegation never amplifies, a
high-water mark moves only when every target got everything, chunks put together are the items.

## What is trusted

Calls into outside crates stand behind small functions marked `external_body`, each with a doc
comment that names the outside function and says what is claimed of it. Results that take pages to
state (HMAC, SHA-256, XChaCha20-Poly1305, regular expressions, JSON documents, ZIP archives, cron
expressions, URLs) are names without a body; contracts speak of those names exactly.
