# arcane

Event sourcing building blocks whose behaviour is stated in `requires` /
`ensures` contracts and proved with Verus.

## Layout

- `src/event.rs`: plain events (`Event`, `Versioned`) and states sourced from
  them (`Sourced`, `Initialized`, `Initial`).
- `src/es/event.rs`: event sourcing events (`Static`, `Concrete`, `Revisable`),
  the non-zero `Version`, and the `Sourced` / `Sourcing` duality.
- `src/es/event/codegen.rs`: compile time helpers of the generated code:
  concatenating slices and detecting different types sharing a name and a
  revision, with the law that such a conflict survives concatenation.
- `src/es/event/adapter/`: adapters converting events with one strategy per
  event (`Skip`, `AsIs`, `Into`, `Split`, `Initialized`, `Custom`); the
  stream of converted events is proved to yield exactly the flattened outputs
  of every event, in order.
- `src/es/adapter/`: the same strategies reached through `WithStrategy` and
  the `Wrapper` of an adapter.
- `src/codegen/`: validation of the `#[derive]` inputs of the macros, over a
  plain model of the input (`codegen::input`): which inputs are refused, with
  which message, and what definition the accepted ones give.
- `app/`: the macro front ends (parsing with `syn`, code generation with
  `quote`) and adapters driven as `futures` streams, around the library.
- `tests/`: behaviour on concrete inputs.

## Not offered

- `Sourced` impls for `dyn Event` trait objects: Verus accepts no trait object
  of a trait with a blanket impl over unsized types, which `Event` has. Events
  can still be applied as `dyn Sourcing<S>` trait objects (without `Send` /
  `Sync` bounds, which Verus does not yet take in a trait object).
- Compile-time uniqueness checks in generated code: they would need `const fn`
  in the library; the generated code checks uniqueness in the user's tests.
- Asynchronous strategies: strategies, splitters and transformers return the
  converted events as a `Vec`; `app/` drives adapters as `futures` streams.
