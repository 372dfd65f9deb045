# witness-bench

Measures the **marginal cost a block builder pays to attach an execution witness** to a block it is
about to submit, and simulates bundles and blocks for the `eth` namespace.

`src/` is the library. Everything in it is verified with [Verus](https://github.com/verus-lang/verus),
except for the small trusted functions that call into outside crates; each of those states in its
doc comment what is claimed of the outside function. The library decides and computes; it performs
no I/O. Where a measurement or a simulation needs something from a node, it runs as a dialogue: a
value says what is needed next, and takes the answer.

| module | what it holds |
|---|---|
| `replay` | options, the plan of a run, the check of the tip, and which block comes next |
| `stages` | the preflight, and which stage checkpoints a persisted block moves |
| `measure` | one block, from fetching it to the steps that persist it |
| `sample` | what was measured, and the rows that report it |
| `witness`, `hashed_state`, `meter` | the record of an executed state and the witness made from it |
| `encoding` | the witness as JSON, and compressed |
| `blocks` | loading and checking block files |
| `engine` | submitting blocks through the Engine API and asking for their witnesses |
| `bundle`, `tally`, `fees` | simulating bundles and blocks |
| `numeric_string`, `u256`, `text`, `json` | numbers and their written forms |
| `faults`, `clock` | page faults and time |
| `bytes`, `b256_map`, `hash` | byte strings, the hash map keyed by hashes, Keccak-256 |

`app/` is the program around it: arguments, files, the node's provider and EVM, JSON-RPC.

```bash
# Is this datadir usable at all? Read-only.
witness-bench replay --datadir <dir> --check-tip-root

# Measure one block without touching the database.
witness-bench replay --datadir <dir> --blocks-dir <blocks> --from N --repeat 10 --encode-witness \
                     --witness-dir <out>/witnesses --out <out>/N.jsonl

# Replay a range, advancing the tip. IRREVERSIBLE.
witness-bench replay --datadir <dir> --blocks-dir <blocks> --from N --to M --commit --out run.jsonl

# Drive a live node.
witness-bench engine --blocks-dir <blocks> --from N --to M --jwt <jwt.hex>
```

Output is JSONL, one line per witness pass. `us_witness` is the only per-pass time; every other
column is a property of the block, measured once and repeated on each row so lines stand alone.
