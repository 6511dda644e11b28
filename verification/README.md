# squib

The verified core of a microVM monitor for Apple Silicon hosts, written in Verus, and the
ordinary Rust around it.

- `src/` is the core, in which Verus proves every function against its contract: the snapshot
  formats and plans, the metadata service with its network stack, the kernel loader, the serial
  port, vsock streams and their credit, network backends, pages on demand, and the rules for
  virtual machines, vCPUs and interrupts. But for reading the clock it performs no input or
  output.
- `app/` carries out what the core decides: files, sockets, child processes, threads, and the
  host's frameworks.
- `tests/` runs the core on concrete values.

What the core asks of outside crates (checksums, JSON, decompression, hashes, identifiers) stands
behind small functions marked `external_body`; the comment above each says what is claimed of the
call without proof.
