# ferric-rules-runtime (verified core)

The byte-level parts of a CLIPS-style rules runtime, written in Verus and
proved against their contracts.

- `formatting`: the `format` control-string grammar (`format_parser`), the
  integer, `%s` and `%c` renderers (`integer_bytes`), the layout of `f`, `e`
  and `g` fields around a double's decimal text (`float_render`), the
  deterministic fallback for noncanonical modifiers (`noncanonical`) and
  directive admission (`directive`).
- `evaluator::format`: the decisions of the `format` builtin as a session the
  evaluator drives, one piece or operand at a time.
- `evaluator::queued_input`: `read` over host-framed stdin frames and the
  stdin router aliases.
- `field_scanner`: the incremental field scanner of string and router input.
- `callable_validation`: the check that no `bind` overwrites a loop's
  iteration variable.
- `actions`: the decisions of a rule's right-hand side: which form an
  action name selects, when the action sequence stops, and how `while`,
  `loop-for-count`, `progn$`, `switch` and the fact-query actions step under
  the shared loop budget.
- `engine`: the decisions of `run` and `step` (the fired count, the limit,
  halt, reset and clear), and assertion results.
- `config`: the engine's call-depth ceiling, fact-duplication policy and
  action-loop budget.
- `host`: fact handles and the one-to-one map of exported handles.
- `pinned`, `byte_buffer`: the lifecycle of a cancelable request, and the
  byte output buffer.

`app/` holds what the library leaves to its embedding: formatting a double's
decimal text, drivers of the `format` session, of `run` and of a rule's
action sequence, the process-wide handle identity counter, and the atomic
cell and channel of a cancelable request token.
