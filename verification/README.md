# rust_agent

A multi-character roleplay chat engine for the terminal, written in Verus.
A director model decides who speaks next; each character is played by a
model with its own prompt and context window; the player types into a
terminal front end.

- `src/` is the verified library: conversation memory and its compaction,
  the context window, slash commands, the front end's editing, wrapping and
  scrolling, the director's prompt and decision parsing, turn order, the
  story loop's decisions, the stream decoder, the request and answer
  conversions of the model API, tool sandboxing and output limits, the tool
  registry and the state-graph router. `src/laws.rs` and the `law_*` proofs
  of `src/sliding_window.rs` and `src/command.rs` state the properties that
  span several calls.
- `app/` is the program around it: configuration, HTTP, SQLite, files, the
  shell, the terminal, and the async loops that run the library's decisions.
- `tests/` exercises the library on concrete values.

Maps keyed by text (the tool registry, the graph's state and its nodes) are
held as vectors of entries whose invariant is that no key occurs twice and
that a later insert replaces the earlier entry. With `String` keys, this
version of Verus accepts calls on `HashMap` but proves nothing of what they
return, so a map in that form would leave the registry's and the graph's
contracts unproved; maps keyed by integers (the scene manager's characters,
the conversation's per-character histories) stay
`HashMap`s.
