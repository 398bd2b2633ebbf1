# nettool

The rules of a network tool: who may ask for what, what a network state may be, which commands
set it, how a change is confirmed or rolled back, how packets, frames and certificates are read,
and when a benchmark counts. All of it is proved with Verus.

- `src/` is the library. Its functions state what they return and change. The one exception is
  the token by which a benchmark is canceled: another thread may set it at any time, so nothing
  is said of what it reads. Laws that hold across functions are public proof functions whose
  names begin with `law_`.
- What the library asks of the outside (programs, kernel files, stores, drivers, clocks) goes
  through small types that write every call down, with its answer. Contracts speak of that log:
  which calls are made, in which order, and that none is made where a request is refused.
- `tests/` runs the library on given values.
- `app/` is ordinary Rust around it: files, sockets, processes, the keyring, and the native
  interfaces of AF_XDP, DPDK and Winsock. It makes the calls that the library decides on.

Where the library calls another crate (`sha2`, `getrandom`, `rcgen`, `x509-parser`, `prost`), a
comment above the call says what is taken for granted of it.
