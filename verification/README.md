# rust_notes

Small studies of Rust, written in Verus and proved.

- `src/linked_list.rs`: a doubly linked list whose nodes live in a dense
  arena and point at each other by slot number; ghost sequences map list
  positions to slots and back.
- `src/custom_vec.rs`: a vector with its own capacity policy (0, then 4,
  then doubling when full).
- `src/cases/actix_web_route.rs`: handlers whose arguments are built from
  the comma-separated pieces of a request.
- `src/lifetime.rs`, `src/lifecycle.rs`: borrows with several lifetimes,
  including writers that reborrow their target.
- `src/async_executor.rs`: the decisions of a small executor.
- The other modules cover assignment, closures, enums, cells, defaults,
  windows over a slice and documentation comments.

`app/` holds the program around the library: printing, trait-object layout,
the executor itself, an HTTP request and the demonstrations that rely on
interior mutability or floating point.
