# formatting_utils

Downloads the images that a CSV export links to: for every row and every chosen
image column, the URL is offered to Google Drive (files, folders, documents),
Dropbox and plain image/PDF links, in that order, and the file is saved under
`outputs/<export name>/` with a name built from the creator, optional extra
information and the column's suffix.

- `src/` is the verified library (Verus): URL recognition (`pattern`, `sources`),
  the source registry and its search order (`registry`), path rules (`path`),
  file naming (`downloader`), the CSV table read with the `csv` crate (`table`),
  job planning (`images`), the course of a download run (`run`), the state of
  the GUI form (`ui`) and the Drive connection choices (`hub`).
- `app/` is the program around it: command line, GUI, Google Drive and HTTP
  transfers, files on disk.
- `tests/` runs the library on concrete inputs.

## Notes

- The URL shapes are fixed regular expressions.  `lazy_regex` writes such
  captures with its `regex_captures!` macro, which the verified library
  cannot use; calling its `Regex` type instead would leave every capture an
  unverified named result.  So `src/pattern.rs` matches the shapes itself
  (leftmost-first, greedy, `.` matching anything but a line feed) and states
  what each one captures.  `lazy_regex` is not a dependency.
- `eframe` and `rfd`, which the GUI in `app/gui.rs` uses, are not in
  `Cargo.toml`: with them the dependency tree grows past 400 packages (535, or
  490 with most of their features off), so they are left out, and `app/` does
  not type-check at `app/gui.rs`.  The library and its tests do not use them.
