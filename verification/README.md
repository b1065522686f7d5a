# ws-gateway

A WebSocket data service gated by TAP v2 (GraphTally) micropayments and settled on chain through
`WebSocketDataService.collect()`.

A consumer opens `wss://<gateway>/ws/{chain}/{topic}?receipt=<TAP-Receipt>`. The gateway validates
and persists the EIP-712 receipt, opens the upstream feed and relays every message of it.
Background tasks aggregate receipts into vouchers (RAVs) and collect them.

## Layout

- `src/` is the library, verified with Verus:
  - `tap`: receipts and vouchers, EIP-712 hashing, signing, signer recovery, validation
  - `ws`: admission of a session and the relay of the feed
  - `aggregator`: the course of the aggregation for one payer, and the plan of a cycle
  - `collector`: the `collect()` payload and the course of a collection cycle
  - `db`: the rows in which receipts and vouchers are kept
  - `config`, `gateway`: settings, defaults and what is worked out from them
  - `pricing`: compute units and minimum receipt values
  - `abi`, `primitives`, `text`: Solidity ABI layouts, addresses and digests, hex and decimal
- `app/` is the program around it: `main`, HTTP, sockets, Postgres and the chain.
- `tests/` holds the tests.

Calls into other crates stand behind small functions marked `external_body`; the comment above each
says what is believed of the call.

Community implementation. Not audited.
