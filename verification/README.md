# suji_runtime

Runtime support for the Suji scripting language, verified with Verus.

- `src/` — the verified library:
  - `env`: lexically scoped variable scopes (define, look up through the
    parent chain, set where bound) kept in a store of scopes named by handles.
  - `module`: the module registry and the resolution of modules, their
    items, and items of nested modules named by paths such as `std:json`.
  - `string_methods`, `str_ops`: the methods of string values and the string
    operations beneath them (split, search, replace, reverse, repeat).
  - `list_methods`, `map_methods`: the methods of list and map values. List
    items are modelled as strings, booleans, numbers (by the bits of their
    doubles) and other values, each with its text; joining, searching,
    sorting, `min`/`max` and the type errors are done here, and the
    floating-point arithmetic of `sum`, `product` and `average` gets its
    operands. Maps keep their entries in insertion order, keys compared as
    the language compares them.
  - `list_closures`: `filter`, `map` and `fold`, given the language's
    closure as a function from an item to a result.
  - `number_text`: which strings `to_number` reads as a number.
  - `binary_ops`: the unary and binary operators: the operand types each
    accepts, its errors, concatenation, comparison and negation.
  - `stream_step`: the decisions of the stream methods (closed streams,
    arity, readable and writable streams) before the I/O they ask for.
  - `env_map_methods`: the methods of the environment map value, over the
    overlay below.
  - `range`: expansion of integer ranges into lists, with the checks on the
    bounds.
  - `indexing`: list indexing (negative indices count from the end) and
    indexing the environment map by variable name.
  - `env_overlay`: environment variables set or deleted by a program are kept
    in an overlay over a base environment (usually the process environment);
    reads see the overlay first.
  - `regex_cache`: regex compilation through a cache of earlier outcomes,
    successes and failures alike, and matching.
  - `helpers`: which loop a labelled `break` or `continue` targets, and what a
    loop does after a run of its body.
  - `builtins`: names of the built-in functions.
  - `shell`: command safety check, and turning a finished command's exit
    status and output into the runtime's result.
  - `random_core`: seeding of the random number generator.
  - `error`: runtime errors and the JSON/TOML errors that convert into them.
  - `assoc`, `text`: association lists and small text utilities.
- `app/` — the process-facing side: the process-wide overlay and regex cache,
  running shell commands, the shared generator and drawing floats from it,
  ranges over floating-point bounds, the standard streams, the
  floating-point arithmetic of numbers, and the error type's display text.
- `tests/` — tests of the library.
