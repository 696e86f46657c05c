# table_features

Adds table features to a Delta table on behalf of a caller that hands over raw pointers.

- `src/` copies and checks what the caller hands over (feature names, custom commit info) and
  decides what has to be done with the table, one action at a time. All of it is verified with
  Verus; `src/laws.rs` states what holds of requests as a whole.
- `src/kernel.rs` holds everything that is taken on trust: the UTF-8 decoder of the standard
  library, and two computations of `delta_kernel`.
- `app/` reads the caller's memory and performs the actions with `delta_kernel`.
- `tests/` runs the library with the real `delta_kernel` linked.
