# factorsvg

Rewrites SVG icons into the single-path form that fontello fonts expect, and
adds them to a fontello configuration.

- `src/` is the verified library (Verus):
  - `text`: character-level string operations (splitting at white space,
    trimming, replacing, reading `u32`s) with their specifications;
  - `pattern`: regular expressions through the `regex` crate;
  - `xml`: shapes (`rect`, `circle`, `ellipse`, `line`, `polygon`,
    `polyline`, `path`) turned into path data, whole documents scanned and
    rewritten, path data tidied;
  - `repair`: path data repaired (moves, arcs);
  - `fontello_data`, `json`: the configuration, its glyphs ordered by code,
    new glyphs added;
  - `utils`, `args`: view boxes, file names, the command line.
- `app/` is the command-line program: argument parsing, files, threads, the
  `node` scaler, JSON (serde), and the few floating-point computations.
- `tests/` exercises the library.
