# beacon_alerts

A distributed event and alert notification system: producer hosts queue
normalized events in a durable local spool and deliver them to a central
server, which keeps alert state per fingerprint, routes new alerts and
resolutions to notification channels by policy, and delivers the messages with
retries.

The rules of the system are a library verified with Verus (`src/`):

- `model` — the event protocol and its validation rules;
- `policy` — routing rules and the channels an event goes to;
- `lifecycle` — how an event moves the alert of its fingerprint;
- `store` — the server's event store (`ServerEventStore`): idempotent acceptance, the
  notification queue with claims, completion and failure, enrollment codes;
- `notification` — message rendering, retry backoff, failure classes, the
  Telegram channel's rules and the delivery run as a state machine;
- `secrets`, `server`, `agent`, `spool` — credentials, HTTP answers, agent
  settings and retry schedule, spool file names and replay order;
- `text`, `time` — the string and RFC 3339 helpers the contracts are stated in.

`app/` is the program around it: command line, HTTP server and client, SQLite
persistence of the `ServerEventStore`, the spool directory and the Telegram requests.
