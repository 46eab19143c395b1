# rrn_station

The logic of a Railroad Network station, written and proved in Verus.

A station keeps a community's mutual-credit ledger on an append-only log. It admits
what its members sign, answers their reads, and replicates its log to other stations.
This crate holds what a station decides; `app/` wires it to sockets, files and a
command line.

## Layout

| Modules | What they hold |
| --- | --- |
| `text`, `order`, `tables` | decimal and hex, orders and sorting, small tables |
| `cbor`, `params`, `rpc`, `methods` | reading requests, naming methods and errors |
| `log`, `ledger_view`, `history`, `events` | the log's records, balances, the event stream |
| `market`, `marketplace_view`, `inquiry_view`, `contract_view` | listings, inquiries, contracts |
| `charges`, `sweeps` | what the periodic sweeps bill, settle and close |
| `governance`, `governance_view`, `dispute_view` | charters, proposals, disputes |
| `channel`, `channel_client` | the sealed mobile channel, both ends |
| `gossip` | replication between stations |
| `ingest`, `control`, `dtn_sync`, `dtn_send`, `dtn_round`, `dtn_loop`, `dtn_step` | bundles over slow and lossy links |
| `backup`, `config`, `clock` | backups, the configuration, time |

## How to read it

Each function states what it returns in its `ensures`, over spec functions that stand
next to it. Public proof functions named `law_…` state what holds of several functions
together. Calls into `dcbor`, `serde_json` and the standard library stand behind small
wrappers marked `external_body`; the comment above each says what it claims of the call.

Work that only storage, engines or a network can do is driven from outside: a machine
such as `ingest::IngestRun` or `dtn_round::DtnRound` says what to find out next and is
fed the answer. `app/` shows the loops around them.
