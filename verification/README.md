# fspy_shm

Shared memory between a task and the processes that it starts, on Linux.

A task creates a memory file, seals it, maps it and hands out an identifier. A process that is given
the identifier asks the task's broker for the file's descriptor over an abstract Unix socket, checks
the file's size and maps it too.

- `src/` is the verified library. It holds the identifier (`identifier`, `base64url`), the messages
  (`wire`), the broker's address (`address`), how sockets are used (`options`), both sides of the
  exchange (`broker`, `client`), the steps that lead to a mapping (`shm`), and the two commands that
  exercise all this from the outside (`small_dev_shm`, `stat_long_filename`, with `decimal` for their
  numbers). A sequence of system calls is a type whose values say which call is due; the function
  that takes such a value and what came of the call gives the next one. The laws at the end of each
  module say what holds of every such sequence.
- `tests/` runs the library. `exchange.rs` takes a broker and its clients through real sockets.
- `app/` makes the system calls.
