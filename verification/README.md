# nono_cli

The decisions behind three parts of a command-line sandbox, each with a contract
that Verus proves:

- `command_policy`: policies for commands that run under supervision. They are
  validated, merged along a chain of profiles, and resolved to executable files.
- `proxy`: the standalone proxy. Flags and a profile are taken together, and the
  server is brought up phase by phase.
- `harness`: a harness for executable filtering. It scans directories for
  executables, derives the rules of a sandbox, and runs smoke tests in which a
  supervisor, a sandboxed session and its shim play together.

The library computes and decides; it reads no file and starts no process. Work
on the outside is a step that the library asks for and whose outcome it is
handed. `app/` is the program around it, which carries these steps out.

## Layout

- `src/text.rs`, `src/bytes.rs`, `src/paths.rs`: text, bytes and Unix paths.
- `src/order.rs`, `src/path_list.rs`, `src/name_map.rs`: ordered collections.
- `src/command_policy/`, `src/proxy/`, `src/harness/`: the parts above.
- `tests/`: tests on concrete values.
- `app/`: the program.

Each type has a model, given by its view, and contracts speak of models. What
holds of several functions together is stated by public proof functions whose
names begin with `law_`.

A few functions of the standard library, of `sha2` and of `landlock` are called
through wrappers whose contracts are trusted; each says which function it stands
for and what it claims of it.
