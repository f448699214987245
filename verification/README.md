# tryparse

Lenient conversion of LLM output into typed values, verified with Verus.

`src/` is the verified library:

- `error` — the error types and the exact messages they render to.
- `text`, `numbers`, `number_text` — decimal printing and parsing, trimming,
  character case, and finding the number in text such as `$1,234.56`.
- `value`, `primitives`, `collections` — a plain JSON model and the
  coercions behind the primitive, `Vec` and `HashMap` deserializers. Each
  coercion either settles the value or hands back what only floating-point
  arithmetic can settle.
- `rename`, `attributes`, `derive_plan` — the decisions the `LlmDeserialize`
  derive makes: `rename_all` rules, the `#[llm(...)]` and `#[serde(...)]`
  attributes, field plans, which generator serves an enum, and how the
  generated code picks a variant.

`app/` is ordinary Rust around it: conversion from `serde_json` and `syn`
values, the floating-point finishing of the coercions, and the token
generation of the derive. `tests/` exercises the library.
