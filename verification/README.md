# csd_asic_proxy

A Stratum v1 proxy that puts ASIC miners to work for a CSD node, and the rules of
the node's own mining server. The library under `src/` holds the rules and is
verified with Verus; the programs' sockets, threads and tasks stand in `app/`.

A CSD block header has 84 bytes, four more than the one that miners know: its time
takes eight. The proxy hands jobs to miners in the usual format, builds the full
header for every answer, and passes on to the node those whose double SHA-256 meets
the node's target.

## Layout

- `src/text.rs`, `src/bytes.rs`, `src/hextext.rs`: text, byte order, hexadecimal
- `src/digest.rs`, `src/merkle.rs`, `src/target.rs`: hashing, Merkle branches, targets
- `src/json.rs`: JSON values and the shapes of mining messages
- `src/proxy/`: the proxy's jobs, its book of them, and its two kinds of connection
- `src/stratum/`: the server's jobs, window, share counts, answers and workers
- `src/wire.rs`: what proxy and server make of each other's messages
- `app/`: the proxy program and the server's tasks

Each state machine takes a line or an event and returns what to do next. Its
contract fixes the lines to be sent for every line or event that it handles; that
they are sent is up to `app/`, and difficulties and the chain's own error texts come
from there. Functions named `law_*` state
what holds across several of them.

## What is taken on trust

SHA-256 (`sha2`), hexadecimal coding (`hex`) and JSON values (`serde_json`) are
called through the functions marked `external_body`; each says what it relies on.
Difficulties are floating-point numbers and are worked out in `app/`.
