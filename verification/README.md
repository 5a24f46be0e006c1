# kubelet

The rules of a node agent for a cluster of pods: how pods and their containers
are started, probed, reported, stopped and cleaned up. The rules are executable
Rust with contracts that Verus proves.

- `src/` is the library. It makes no calls to the container engine and touches
  no files. It takes what the engine, the file system and the cluster have said
  as plain values, and says what is to be done next. What goes on over several
  steps is a state machine: a phase and an event give the next phase.
  Functions named `law_*` state what holds across functions.
- `tests/` runs the library on concrete values.
- `app/` performs what the library asks for, by the container engine, the
  network and the file system. What the rest of the cluster provides stands in
  the trait `Surroundings`.

The modules that follow one pod through its life are `start_pod`, `pause`,
`init`, `start_container` (with `env`, `expand`, `mounts`, `dns`, `config`),
`hook`, `probe`, `status`, `init_status`, `termination`, `stop` and `gc`.

A few calls to outside code are trusted rather than proved; each is a small
function marked `external_body`, with a comment that names what it calls.
