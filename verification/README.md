# queuepeek

A message-queue browser for RabbitMQ, Kafka and MQTT whose logic is a
library verified with Verus: every decision the browser makes — what a key
does on each screen, which messages a filter keeps, what a copy, move,
delete, import or dump sends next, how a payload is decoded and shown — is
a function with a contract that Verus proves.

## Layout

- `src/` — the verified library.
  - Screens and keys: `keys` (queue and message lists, list popups,
    routing of keys), `popup` (every popup), `detail` (message detail and
    payload search), `exchanges`, `profiles`, `results` (what a finished
    background task changes), `screens` (carrying out what a key asked
    for on the screen's state), `session` (screens, popups, queue and
    message browsers with their selections and filters).
  - Jobs driven step by step: `deletion` (consume, back up, re-publish the
    rest), `import`, `dump`, `sending` (copy, move, re-route),
    `schedule`, `benchmark`, `updater`.
  - Data and formats: `config`, `forms`, `model`, `json`, `rabbitmq`
    (management API paths and answers), `queue_detail`, `kafka`, `mqtt`,
    `schema` (Confluent wire format and registry answers), `protobuf`
    (schema-less decoding), `payload` (base64, gzip, pretty JSON and XML),
    `highlight` (colouring and search hits), `groups` (the consumer
    groups popup), `diff`, `comparison`,
    `filters`, `template`, `timestamp`, `operations` (dead-letter headers,
    messages written as JSON for exports, dumps and backups, export file names),
    `theme`.
  - Foundations: `text` (strings with exact specifications), `order`
    (sorting names), `keyed` (name-keyed tables).
- `tests/` — tests of the library, run with the outside crates linked.
- `app/` — a command-line front end: reads the configuration, talks to
  RabbitMQ over HTTP, runs the library's jobs and prints what they report;
  `browse` drives the message list's keys one input line at a time.

## Outside crates

`serde_json`, `uuid`, `urlencoding`, `base64`, `flate2` and `similar` are
called from the library through small trusted wrappers whose contracts
state what each call returns; `serde`, `toml`, `dirs`, `reqwest` and
`apache-avro` are used by the front end only.
