# fischl

Download bookkeeping for a game launcher, verified with Verus.

- `src/` is the verified library: speed tracking (`speed`), token-bucket
  bandwidth limiting (`limiter`), response header reading (`header`), the
  choice of the disk that holds a path (`free_space`), resumable downloads as
  a state machine (`session`, driven from `downloader`), the Steam Linux
  Runtime addresses (`compat`), the error type (`error`) and the clock
  (`clock`). The properties that hold across calls are stated as proof
  functions named `law_*` in `speed`, `limiter`, `header`, `free_space`,
  `session` and `downloader`.
- `app/` performs the I/O: the HTTP client, files, disks, the process-wide
  limiter and download slots, and the async loop that answers the requests of
  a `DownloadSession`. It also holds the speed smoothing step, which computes
  in floating point and is handed to the library as a function.
- `tests/` runs the library on concrete values.
