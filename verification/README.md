# nix_bindings

Safe bindings to the Nix C API: stores, derivations and builtins.

- `src/` is the verified library. It makes no call into the C API. It decides, on plain values,
  what is handed to a call, what a reply means, when an open store is shared, in which order a
  builtin is registered and in which order build outputs are handed out. Every function has a
  contract that Verus proves. Taken on trust are `Arc::downgrade`, `Weak::upgrade` and
  `String::from_utf8_lossy` of std.
- `app/` makes the calls. Each of its operations asks the library for the arguments of a call,
  makes it, and hands the outcome back.
- `tests/` runs the library without Nix.

| module    | what it decides                                                        |
|-----------|------------------------------------------------------------------------|
| `ctext`   | strings and arrays as C takes them                                     |
| `error`   | what is reported                                                       |
| `cache`   | which open store answers a request, and what is cached                 |
| `store`   | arguments and replies of the store operations                          |
| `outputs` | build outputs in alphabetical order                                    |
| `builtin` | the steps of registering a builtin, and what a builtin hands back      |

Building `app/` needs the C libraries of Nix 2.33 or later, which `pkg-config` has to find.
