# cuda_builder

A builder for CUDA kernel crates written in Rust, with its logic proved by
Verus.

`CudaBuilder` holds the build options of a kernel crate and the path of an
already-built `rustc_codegen_nvvm` backend. From them the library derives the
rustc flags and the nested Cargo invocation, drives the build as a state
machine, and picks the kernel's PTX file out of Cargo's JSON message stream.

## Layout

- `src/` — the verified library.
  - `builder.rs`: the options and their fluent setters.
  - `flags.rs`: the rustc flags for the kernel build and their encoding for
    `CARGO_ENCODED_RUSTFLAGS`.
  - `kernel_build.rs`: the nested Cargo command, the self-profiling
    directories, and the build itself as a function from state and report to
    next state and action.
  - `artifact.rs`: line splitting of Cargo's output, selection of the final
    PTX artifact, and the diagnostics that are passed through.
  - `backend.rs`: validation of the backend path and the loader search path
    for its shared-library dependencies.
  - `cudnn.rs`: discovery of the cuDNN headers and parsing of their version.
  - `codegen.rs`, `arch.rs`: decisions of the codegen backend (target
    configuration, linkage of merged symbols, allocator shim signatures, the
    architecture to target, the libnvvm version floor and what follows
    libnvvm's verification).
  - `warp.rs`: the control word of warp shuffles.
  - `path.rs`, `text.rs`: a byte-level path model (components compared as
    `std::path` compares them) and text helpers. Paths follow the Unix rules
    of `std::path`: on a Windows host, backslashes and drive prefixes are not
    treated as separators or prefixes, so results built from such paths
    (parents, file names, the nested target directory, the backend's library
    directories) differ from `std::path` there.
- `tests/` — tests of the library on concrete values.
- `app/` — the I/O around the library: the loop that performs the build's
  actions (file system, environment, processes), JSON decoding of Cargo
  messages, the phase-timing log, and error types with `Display`.
