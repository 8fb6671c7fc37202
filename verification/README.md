# toyrcu

Read-copy-update in Rust, verified with Verus. It is meant for learning.

A cell holds one value. Readers get the newest version of it and keep what they got
for as long as they like. A writer changes a copy; the copy becomes the newest
version when the writer is done. One writer works at a time, and another one that
asks is refused after a few tries.

```rust
use toyrcu::Rcu;

let mut rcu = Rcu::new(42);

let mut guard = rcu.assign_pointer().unwrap();
*guard = 100;
guard.drop();

assert_eq!(*rcu.read(), 100);
rcu.try_clean_fast();
rcu.drop();
```

## Memory

Old versions are retained until `clean` or `try_clean_fast` reclaims them, which
takes that one handle is registered and no update is in progress. `clone` and
`read_lock` register a handle, `Rcu::drop` removes it. A handle that is removed while
it is the only one cleans up before it goes.

Cleaning up is a matter of memory alone: an update copies the newest version, whether
older ones are still retained or not. A copy that is equal to that version when its
guard goes is not published.

Handles and guards end with a call of their `drop` method; `app/handle.rs` wraps them
so that they end by themselves.

## Layout

- `src/state.rs`: the contents of a cell as a mathematical value, and the transitions
  it can make
- `src/body.rs`: the contents as a data structure, with one operation per transition
- `src/rcu.rs`: handles and guards of cells that threads share
- `src/backoff.rs`: how often a refused operation tries again
- `src/laws.rs`: what holds of a cell as a whole
- `app/`: a demonstration and benchmarks
