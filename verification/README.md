# ubrn_napi

The decisions behind two parts of a UniFFI bindings generator for JavaScript, verified with Verus:

- building a Node.js addon for a Rust crate through Node-API (targets, manifests, Cargo arguments,
  loader, order of steps), and
- selecting the exports of a WebAssembly build that may suspend through JSPI.

`src/` is the library. Each function states what it returns, and the `law_*` proof functions state
what holds across functions.

| module | what it decides |
| --- | --- |
| `config` | targets, their names, the `napi` section |
| `command` | what a command line comes to |
| `plan`, `runner` | the steps of a build and of a test run |
| `cargo_args`, `manifest`, `loader` | arguments and files |
| `contract` | the UniFFI contract that a crate's dependencies speak |
| `ffi` | the definitions that the Node-API bindings declare |
| `jspi` | selectors, selections, and their eligibility for wasm2 |
| `case`, `paths` | the calls into `heck`, `camino` and `pathdiff` |
| `name_set`, `text` | sets of names and operations on text |

`app/` is what surrounds it: command line, configuration files, processes, the file system, and the
types of `uniffi_bindgen` and `cargo_metadata`.
