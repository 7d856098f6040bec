# spine

`spine` is the context-management core of a coding agent: it keeps a
conversation as a tree of nodes and segments, folds finished work into
memory archives, rebuilds the model's context from that tree, and renders
the prompt overlays that steer the agent. Every function under `src/` is
written in Verus and carries a `requires`/`ensures` contract that the
verifier proves.

## Layout

- `src/` — the verified library.
  - `ids`, `segment`, `model`, `items`, `keyed`: node ids, segment covers,
    conversation items and their views.
  - `lexer`, `tree_projection`, `tool_group`: reading a history into symbols
    and projecting it onto the node tree.
  - `archive`, `checkpoint`, `compact`, `compact_checkpoint`,
    `candidate_mem_plan`, `mem_install`, `suffix_fold`: memory archives,
    compaction plans and checkpoints, and their validation.
  - `context_materialization`, `host_materialization`, `host_bridge`,
    `replacement`, `pi_render`: rebuilding the context and the replacement
    history from a tree and its memories.
  - `prompt`, `instructions`, `numfmt`, `text`: overlays, instruction text
    and formatting, with laws such as the XML-escape round trip and the
    idempotence of appending the instructions.
  - `debug_audit`, `fast_fail`, `toolcall_prepare`, `replay`: runtime
    audits, the tool-call recording step function and the checks that gate a
    resume from the rollout.
  - `io`: SHA-1 digests and path operations, each behind a small trusted
    wrapper whose contract names what the outside function returns. The
    other trusted wrappers are the JSON type-tag scan in `host_bridge`, the
    string sort in `replacement` and `String::push` in `text`.
- `tests/` — executable tests of the library on concrete values.
- `app/` — ordinary Rust around the library: JSON encodings of its records
  and the reads and writes of sidecar files. It makes no decisions of its
  own.
