# thmbs

An `ls(1)`-style listing in which every entry is preceded by an inline image
(the iTerm2 `File=` escape sequence): the file itself when it is a non-empty
regular file, a one-pixel placeholder otherwise. Image dimensions can be
shown in a column of their own.

## Layout

- `src/` — the library, verified with Verus:
  - `options.rs`: command-line flags reconciled into options;
  - `text.rs`: numerals, padding and character vectors;
  - `mode.rs`: the mode column and type indicators;
  - `human.rs`: human-readable sizes, computed exactly on integers with the
    rounding of double precision;
  - `names.rs`: file names of paths and hidden names;
  - `ordering.rs`: path components and their order;
  - `sorting.rs`: stable listing order by name, time or size;
  - `image.rs`: the inline-image escape sequences (base64 through the
    `base64` crate);
  - `timefmt.rs`: the time column (through `chrono`);
  - `dims.rs`: which files are probed for image dimensions;
  - `listing.rs`: the text of a listing;
  - `walk.rs`: operands, directory entries and section headers.
- `app/main.rs` — the command: argument parsing (`clap`), file-system access,
  user and group names (`libc`), image headers (`imagesize`) and output.
- `tests/` — tests of the library.
