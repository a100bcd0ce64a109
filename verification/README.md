# edge_approximate

Two command-line tools for approximate edge analytics on Kafka, with their
logic verified by Verus:

- the **CSV producer** reads records from a CSV file and sends them to a
  Kafka topic, chunk by chunk, each chunk to the next partition;
- the **edge producer** reads messages from a Kafka topic, locates each one
  in a neighborhood (by geohash), samples them, and sends them on to one or
  more Kafka topics, or writes them to one CSV file per neighborhood.

## Layout

- `src/` — the verified library:
  - `text` — decimal rendering, joining, character removal, replacement;
  - `toml_model` — a plain-value model of a TOML document and its lookups;
  - `config` — the errors of the configuration loaders and the table and
    key lookups they share;
  - `producer` — the CSV producer's configuration, message kinds, chunk
    schedule and subcommand helpers;
  - `edge` — the edge producer's configuration, topic naming, routing,
    stratified sampling, geohash covering search and subcommand helpers.
- `tests/` — tests of the library.
- `app/` — the programs around the library: command lines, Kafka, files,
  GeoJSON geometry and the floating-point parts of sampling.
