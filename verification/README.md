# proxy_fs

A read-only file system that is served over a byte stream, and a virtio-fs device that leaves the
serving to an external daemon.

The library in `src/` does no input or output. It makes and reads messages, decides what to do
next, and keeps the state of inodes, handles and connections; Verus proves its functions against
their contracts.

| modules | what they hold |
|---|---|
| `wire`, `request`, `reply`, `inbox` | the wire format, and messages that arrive in pieces |
| `text`, `error`, `host` | paths and text, error numbers, numbers of the host |
| `server` | which answer a request gets, and when a connection ends |
| `inodes`, `range_fetch`, `proxy` | the client: inodes, ranges, the operations of the file system |
| `caching` | the client that keeps what it fetched in a local directory |
| `vhost_user`, `activation`, `device`, `config` | the device and its start |
| `*_laws` | what holds of several functions together |

`app/` is the daemon `proxy-fsd`, with the sockets, files and guest memory that the library is used
with. `tests/` runs the library on concrete values.
