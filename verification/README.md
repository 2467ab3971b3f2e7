# noble command-line core

The verified core of the `noble` command-line shell, written in Verus.

- `src/` is the library. Its functions carry contracts that Verus proves,
  except two wrappers in `src/text.rs` around `String::push` and
  `char::from_u32`, whose contracts are taken on trust from std's
  documentation. It covers argument decoding for each command, the bounded JSON reader and
  writer, the report documents of `verify`, `build`, `component` and the
  companion session, the rule-library walk and its compilation order, the
  sandbox discovery steps and command line, the Lean pipeline's mounts and
  arguments, and the engine worker's framing and request headers. Effects are
  not performed here: where a command alternates work on the host with
  decisions, the library takes one step at a time from plain values.
- `app/` is the program around it: argument capture, files, processes,
  threads and the calls into the contract frontend, kernel and Wasm backend
  crates. It hands the library plain values and performs what the library
  decides.
- `tests/` exercises the library on concrete values.

The trusted Lean checker sources and the engine runtime scripts are read at
run time from the `checker/` directory fixed when the program is built; no
run-time setting redirects them.
