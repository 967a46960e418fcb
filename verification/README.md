# mega_downloader

The engine of a downloader for MEGA folder links. It keeps the folder
structure, fetches the bytes through Real-Debrid (optionally by way of Aria2),
falls back to MEGA itself for files that Real-Debrid cannot serve, and picks up
where it was after a pause, a crash or a restart.

- `src/` is the library: every rule, plan and decision of the engine, with
  contracts that Verus proves.
- `app/` is the program around it: an HTTP server, the database, the network
  and the disk.
- `tests/` runs the library.

## What the library promises

- A file of the tree lands below the destination folder, at the names of its
  path, each made safe for every filesystem; no path leaves the destination
  (`path_laws`).
- An archive mirrors the layout on disk (`path_laws`, `zip`).
- A specific path mapping beats a broad one, however it is written, and a file
  keeps its place under a mapping (`pathmap`, `pathmap_laws`). Mappings are
  compared in forward-slash style on every platform.
- Interrupted downloads resume, and only whole files are accepted (`stream`).
- Failures are retried a bounded number of times; a file with a usable key is
  never given up before the native download was tried (`retry`, `task`).
- An outage of Aria2 costs a file nothing: where Aria2 cannot be reached, for
  the request or for many looks at the download in a row, the file is streamed
  instead (`downloader`, `poll`). An expired link is asked for again
  (`poll`).
- The queue of a job closes exactly when all of its files are settled, and no
  more files are worked on at once than there are workers (`queue`); a job never
  runs twice at once (`registry`).
- A run picks up every transfer that is not done; a paused job leaves nothing
  active (`run`).
- Saved settings are read back, and secrets are not reported (`settings`).

## What is believed, not proved

The contracts of seven small functions rest on code outside the library:
`String::push` and `String::from_utf8` of the standard library, base64 decoding
(`base64`), JSON lookups and JSON strings (`serde_json`), the AES-CTR keystream
(`aes`, `ctr`) and random ids (`uuid`). Each says in its comment what is claimed.
