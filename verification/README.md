# tycho

The decisions of a Tycho node, verified with Verus: what it writes and reads,
what it signs, and what it does next.

## Layout

`src/` is the library. Every function in it states what it returns or changes,
and Verus proves it.

- `ids`, `bytes`, `shard_map`: identifiers, byte order, maps by shard.
- `tl`, `tl_bytes`, `tl_list`: the binary format of values and lists.
- `queue`: keys of the message queue, diffs of the queue, and persistent states.
- `models`: points of the mempool, with their digests, signatures and limits.
- `dag`: the threshold of a round, the state of a point at its place, rounds.
- `intercom`: which peers take part in which round.
- `engine`: the configuration of the mempool and the name of its overlay.
- `mempool`: finding new external messages in payloads.
- `validator`: validator sessions and the signatures that they collect.
- `manager`: the collation manager: steps, sessions, blocks, synchronisation,
  restoring the queue, committing.
- `state_node`: accepted blocks and delayed states.
- `block`, `types`, `prepare`, `starter`: blocks, their states and zerostates.
- `elect`, `config_action`: elections, the wallet, changes of the config.
- `text`: short texts for logs.
- `test_utils`: a configuration to try things with.
- `outside`, `cells`: every call into other crates. The contracts in these two
  files are believed, not proved.

Functions that decide about a long course of actions, such as a restore of the
queue or a round of elections, take an event and return an action. The loops that
perform the actions stand in `app/`, with clocks, files, command line arguments
and everything else that is not verified.

Theorems about more than one function are the public proof functions whose names
begin with `law_`.

`tests/` runs the library on given values, with the other crates linked.
