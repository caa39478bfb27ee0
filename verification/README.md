# mobius_device_lab

The decision logic of a desktop lab for Android and jailbroken iOS devices,
written in Verus and proved against its contracts: argument lists for `adb`,
`ssh`, `scp`, `frida-server` and the iOS host tools, validation of serials,
paths, hosts and ports, parsers for the tools' output, package analysis
(ZIP structure, APK and IPA metadata, Mach-O architectures, MD5), bounded
output capture, and the registries the application keeps for port
mappings, proxies, instrumentation servers and SSH sessions.

## Layout

- `src/` — the verified library. Each module states its behaviour in
  `requires`/`ensures` over spec functions and views; laws that relate
  several calls are public proof functions (`lemma_*`). The few calls into
  outside crates (`base64`, `getrandom`, `md-5`, `plist`, `serde_json`,
  `zeroize`, and parts of `std`) go through small `external_body` wrappers
  whose contracts say what the crate's documentation and source promise.
- `tests/` — tests of the library on concrete values.
- `app/` — the unverified program around the library: a JSON-lines command
  loop on standard input and output, process spawning, file and archive
  reading, and network interface discovery. It hands plain values to the
  library and acts on what comes back.

## Building

The library verifies with Verus; `app/` is ordinary Rust that depends on it.
