# micro_core

The logic of a rollup node's core services, verified with Verus.

`src/` is the verified library; each module states its behaviour in `requires` /
`ensures` contracts over mathematical models (`Seq`, `Map`, `int`, views):

- `network`: the L1 networks, their chain ids and names.
- `config`: configurations loaded from environment variables, with the first bad
  field reported.
- `gas_tracker`: gas accounting of blocks and batches.
- `priority_ops`: new priority operations taken in from L1 events, without repeats,
  in serial order, their factory dependencies reassembled from split parts.
- `storage`: unique storage updates of a block, the rows that copy storage logs into
  the database, and the plan to revert storage to an earlier batch.
- `dal`: query texts, status names and row conversions of the data-access layer.
- `node_check`: the heartbeat registry of the checking node and the retry steps of
  the pinging node.
- `merkle_tree`: the versions, roots and tags of the versioned Merkle tree as stored
  in its database, and the hashing of its roots as a full binary tree of 2^256 leaves.
- `workers`: the decision steps of the periodic workers (assignment scans, penalties,
  consistency checks, assembly sending, prover reports, node lists).

`app/` holds the I/O around the library: environment access, sockets, threads, and the
serialized form of the library's types. `tests/` exercises the library on concrete
values.
