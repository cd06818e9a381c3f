# goauld

Dynamic instrumentation for Android on arm64: a verified library, and the programs around it.

`src/` is the library. Verus proves its functions against their contracts. The few that only call
another crate or the standard library are marked, and say what is taken on trust of that call.

| Modules | Contents |
|---|---|
| `bytes`, `text`, `split`, `numbers`, `ordered`, `json` | Bytes, characters, numerals, ordered maps, JSON text |
| `decoder`, `encode`, `logical`, `writer`, `writer_laws`, `relocator` | A64 instructions: decoding, encoding, writing, relocating |
| `trampoline`, `patch`, `icache`, `elf`, `got` | Inline hooks and GOT slots |
| `proto` | The wire protocol of host and agent |
| `art`, `java_hook`, `java_types`, `java_walk`, `storage`, `api_trace`, `offdevice` | The Java runtime: method hooks, class walks, API traces |
| `maps`, `procfs`, `discover` | What `/proc` says |
| `remote`, `inject`, `loaders`, `spawn` | Calls in another process, and loading a library into it |
| `syscall_names`, `syscall_name_laws`, `syscall_trace`, `syscall_format` | System call traces |
| `host`, `stress`, `injector`, `agent` | The rules of the programs |

What talks to the outside is a state machine here: it says which operation is due, and takes the
answer in. `app/` performs the operations: sockets, adb, ptrace, memory and JNI. It holds the
desktop program and, under the name `goauld-injector`, the program that runs on the device.

`tests/` runs the library on concrete values.
