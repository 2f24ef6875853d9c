# sarcent

A cluster of devices that share files: the master moves the files of a source
directory to workers that still have storage to spare, and records where each
file went.

- `src/` is the verified library (Verus): rendering of sizes and numbers, worker
  URLs, the virtual-node hash ring (rows a server registers, the ring read back,
  the order a file's coordinate visits it), the placement of a file on a worker
  (by ring order, or by the list of registered servers), the upload stream and
  its receiving end, and the records kept of moved files.
- `app/` is the program around it: command line, SQLite repositories, gRPC
  services and clients, the file walk, disk figures and background mode.
- `tests/` runs the library on concrete values.
