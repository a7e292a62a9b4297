# Shared publisher

The publisher sits between the sidecars of several chains and a settlement layer.

- It coordinates cross-chain transactions by two-phase commit: a request that spans at
  least two chains is announced to all of them, each votes, and the transaction commits
  exactly if every participant votes yes before the time is up.
- It counts periods and superblocks, waits for a proof of every registered chain, checks
  that what each chain has received is what the others have sent it, and submits the
  superblock. Where proofs are not collected in time, it announces a return to the newest
  settled superblock.

`src/` is the verified library. It reads no clock, opens no connection and touches no
file: whoever drives it hands in what happened and carries out the effects it asks for.

| module | content |
| --- | --- |
| `types`, `time`, `text`, `table` | identifiers, time, decimal and hexadecimal text, a table keyed by text |
| `messages`, `wire`, `codec`, `message_codec` | the messages and their wire format |
| `mailbox` | chain proofs and the mailbox check |
| `sbcp`, `services`, `sbcp_laws` | the superblock protocol, the services that it drives, and its laws |
| `coordinator_model`, `coordinator_state`, `coordinator`, `effects`, `handlers` | two-phase commit, proof collection and message dispatch |
| `coordinator_laws`, `coordinator_runs` | laws of single operations and of whole runs |
| `config`, `env`, `durations`, `spans`, `cli` | configuration, environment overrides, command line |
| `metrics` | the metrics' names, kinds and updates |

`app/` is the program around it: files, sockets, clocks, Prometheus objects.
