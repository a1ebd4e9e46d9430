# nndd_next

The core of a niconico archive client, verified with Verus.

- `src/` is the library: search queries and their URLs, comment threads,
  the user-video listing, HLS ranges, keys and AES-128 decryption, the
  in-order writing of downloaded segments, MP4 boxes, ASS comment styles,
  ffmpeg / yt-dlp output parsing, the burn-in feed protocol, library
  records and the checks on video ids and Domand URLs.  Every public
  function carries a contract, and the laws that tie functions together
  are public proof functions named `law_*`.
- `app/` is plain Rust around it: HTTP with reqwest, processes, SQLite with
  rusqlite, the local file server with axum, and the floating-point layout
  of burned-in comments.
- `tests/` exercises the library on concrete values.

Calls into outside crates sit behind small trusted wrappers whose doc
comments say what is assumed of them.
