# rust_wal_cake_writer

Change-data capture from PostgreSQL logical replication to Kafka, and a
consumer that buffers the published change events into Arrow record batches.

The library under `src/` is written in Verus and proved against the
contracts of its functions. The calls into `arrow`, `pg_walstream` and
`rdkafka` go through small wrappers whose contracts are taken on trust; a few
of them, such as the display text of an outside error, state nothing of their
result.

- `wal_parser` decodes pgoutput payloads (through `pg_walstream`) into WAL
  records, keeping the relation cache and transaction context across messages.
- `pipeline` decides what the replication loop does with one WAL data message:
  publish it raw, or stamp, group, fence and batch its records.
- `replication` holds the grouping and batching, the per-position fences that
  decide which WAL position may be confirmed to the server, and the coalescing
  of batches by the publishers.
- `state` holds the persisted replication positions and the bounded publisher
  queues with their topic routing.
- `decoder`, `kafka`, `metrics`, `http`, `config` and `lsn` cover topic names,
  send retries, producer settings, the Prometheus exposition, the metrics
  endpoint's answers, the environment settings and the textual LSN form.
- `cdc_message`, `arrow_converter`, `iceberg_writer` and `consumer` are the
  consumer side: change events, per-table columnar buffers, the table cache and
  the consumer's settings.

`app/` is the program around it: the replication stream, the broker clients,
tasks, timers, files and sockets. `tests/` exercises the library on concrete
values.
