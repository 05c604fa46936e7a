# denial

The policy core of the Denial Wayland compositor, written in Verus: every
function under `src/` carries a contract, and Verus proves each of them
except the few small wrappers marked `#[verifier::external_body]`, which call
into `std`, `libc` or `sha2` and whose contracts are trusted.

## Layout

- `src/clipboard*` — clipboard history: capture plans for offered MIME
  types, content validation (text, PNG, JPEG, WebP), the bounded history with
  pinning and eviction, and the binary control protocol spoken with Flutter.
- `src/authentication*` — the secure lock session: packet decoding, the
  password attempt state machine, fingerprint matches pinned to lock epochs,
  retry backoff, and the bounded line reader of the fingerprint settings tool.
- `src/presentation.rs` — the fingerprint contact lifecycle, sensor profiles
  and the copy normalisation of presented images.
- `src/dpms*`, `src/event_loop.rs` — display power bookkeeping, power
  requests, and the cadence of background work.
- `src/cpu_scheduling.rs` — realtime and nice-level policy, thread roles and
  placement rules.
- `src/engine*`, `src/runtime*` — the Flutter embedder's value types, the
  platform-message quotas, the engine command line and start-up checks, the
  platform task queue, closing-window texture leases, POSIX locale parsing
  and bundle layout.
- `src/cli.rs`, `src/ui_tool.rs`, `src/development_paths.rs` — argument
  parsing, path handling and the checks of the `denialctl` and `denial-ui`
  command-line tools.
- `src/text.rs`, `src/environment.rs` — shared text helpers and legacy
  environment names.

Properties that span several operations are stated as proof functions
named `law_*` next to the code they speak of.

`app/` holds the ordinary Rust around the library: locks shared between
threads, clocks, files, the environment, worker loops and `Display`
implementations. `tests/` exercises the library through its public API.
