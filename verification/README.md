# ShellCanvas Drive Bridge

Attaches a folder that ShellCanvas grants over inherited pipes as a local drive
or mount point: through WinFsp on Windows, through FUSE on Linux and macOS.

The rules of the bridge are a verified library, `src/`: paths within the granted
root, frames and request numbers, transfers in bounded parts, the inode table,
what every kernel or driver request asks of the provider and is answered, and
when a mount starts and ends. Each request is a series of steps. A step either
asks for one exchange with the provider or is the end, so that the library does
no input or output of its own. Contracts relate each step to a specification on
mathematical values; laws that span steps are the functions named `law_...`.

- `src/path.rs`, `src/metadata.rs`, `src/error.rs`, `src/wire.rs`,
  `src/bridge_control.rs`, `src/server.rs`: what both ends of the pipes share.
- `src/transfer.rs`, `src/exchange.rs`: reads, writes and steps.
- `src/inodes.rs`, `src/path_table.rs`, `src/fuse/`: the FUSE backend.
- `src/windows/`, `src/windows_*.rs`, `src/mount_gate.rs`: the Windows backend.
- `src/probe.rs`: the check of a transport on a disposable root.
- `app/`: the program: pipes, JSON, kernel and driver interfaces.
- `tests/`: scenarios on an in-memory provider.
