# cbr_egui

The logic of a comic reader for CBZ, CBR, PDF and DjVu files, written in
Verus. The functions under `src/` are verified against their contracts;
calls into `std` and outside crates go through a few small trusted
wrappers whose contracts say what those calls do. The one piece of state
no contract can describe is a decode request's cancellation flag, shared
with worker threads: the functions that read it hand the flag's value to
functions whose contracts say what each value leads to.

- `src/vfs/` — archive page listing and natural ordering, reader selection
  by extension, decompression and raster budgets, the synthetic page names
  of PDF and DjVu documents.
- `src/decode/` — decode requests, cancellation, rotation, and the decode
  pipeline (size checks before allocation, shrinking, turning).
- `src/cache.rs` — the bounded least-recently-used page cache.
- `src/library/` — library records, ComicInfo field clean-up, scanning and
  import naming rules, cover thumbnail keys and sizes, change batches.
- `src/viewer/` — page identities, prefetch candidates, two-page spreads,
  continuous-view windows, viewer commands.
- `src/app/` — the library view (search, sort, shelves), reader navigation,
  prefetch bookkeeping, cover scheduling, and the text the screens show.
- `app/` — a command-line front end around the library: SQLite storage,
  the zip, rar, PDF and DjVu readers, worker threads, file watching and
  settings.
- `tests/` — tests of the library on concrete values.
