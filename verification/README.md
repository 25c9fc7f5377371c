# warehouse

The decisions of a warehouse inventory service, verified with Verus. Events come in
through a Kafka topic, as JSON or as Avro with a registered schema. They change the
stock that Cassandra keeps by product and zone; what cannot be read or applied is put
aside with a reason and a code. A second program publishes events over HTTP.

The library does no input or output. It says what to ask of the database, what to write
to it and what becomes of a message; the programs in `app/` carry that out.

| Module | What it holds |
| --- | --- |
| `consumer`, `dead_letter` | what becomes of a message, and what is put aside of it |
| `events`, `payload` | what an event is, and how it is read from Avro and from JSON |
| `run`, `handlers`, `cassandra` | how an event is processed: steps, requests and replies, statements |
| `store`, `processing`, `laws` | what the database holds, and what can be relied on |
| `producer`, `wire` | what is published, and how a message is framed |
| `avro`, `json`, `time`, `text` | values, and the calls into other crates on them |
| `schema_registry`, `config`, `http`, `retry` | the rest of the service |

Each call into another crate is one function whose doc comment says what is taken to
hold of it.

`app/` is run with `producer` as its argument, or with none for the consumer. It reads
`migrations/init.cql` and `schemas/product_received_v1.avsc` and `_v2.avsc` from the
working directory.
