# vision_bindings

Message bindings for the actors of the VVM.

`bindings::with_bindings` takes the text of a message handler,

```rust
pub fn handle_ping(from: Address, ball: Ball, cb: Callback<Ball>) { .. }
```

and gives the text of the items that make it callable from other actors:

- `ping`, which sends the message and keeps the callback for the answer
- `PIPELINE_PING`, the callbacks that wait for an answer
- `handle_ping`, which takes only integers and addresses, reads every other
  argument out of a memory cell, and calls `inner_handle_ping`, the handler as it
  was written
- `handle_ping_<hash>_ret`, which handles the message `ping_<hash>_ret` and takes the
  answer in it back to its callback; the hash is that of the whole handler
- `include_ping_ret!`, a macro that puts that handler into another crate

## Layout

- `src/`: the library, verified with Verus
  - `literals`, `attribute`: which texts the parser can be given
  - `syntax`: what a handler looks like in source
  - `names`, `arguments`, `wire`: its names, its arguments, and how types travel
  - `ser`, `der`: the code that packs and unpacks a message
  - `expand`, `bindings`: the items, and the way from text to text
  - `types`, `handlers`: addresses, callbacks, and two handlers
- `app/`: the run-time crate that bindings refer to, and the attribute's entry
- `tests/`

`proc-macro2` is built without its `proc-macro` feature here, so it reads and prints
texts by itself. Where the feature is on inside of the compiler, as it is in a
proc-macro crate that also builds `serde_derive`, the compiler reads and prints them,
with its own spacing, and the hashes follow that.
