# claudex

Profiles, connectivity probes and launch rules of the claudex command line, written in Rust and
verified with Verus.

- `src/` is the library. Verus proves the contract of every function in it but three: those in
  `outside` call other crates and the standard library, and their contracts are believed. The
  library does no input or output: commands that alternate between asking and deciding are given
  turn by turn.
  - `config`: profiles and the configuration that holds them
  - `profile`: listing, showing, adding and removing profiles
  - `testing`: probing one profile or all enabled ones
  - `connectivity`: the steps of a probe, the request it sends and what its answer means
  - `interactive`, `presets`: adding a profile by questions and answers
  - `launcher`, `path`: what the program does when it is called `claudex5`, and how it finds out
  - `proxy`: waiting for the proxy to be ready
  - `text`, `text_map`, `error`: text, maps from text to text, and errors
  - `outside`: the calls whose results are believed without proof
- `tests/` runs the library.
- `app/` is the program: the command line, the terminal, the network and the file system. The proxy, the launcher, the dashboard, updates, configuration sets and OAuth are linked
  in through the trait `Services`.

The promises that span several functions are the proof functions whose names begin with `law_`.
