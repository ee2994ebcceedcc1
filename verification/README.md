# lazymagick

A terminal front-end for ImageMagick: browse recipes and images, preview the
`magick` command a recipe builds, and run it on one file or a batch, in an
interactive interface or headless from the shell.

## Layout

- `src/` — the library, verified with Verus.
  - `text.rs`, `paths.rs`, `sort.rs` — strings, path pieces and a stable
    sort, each with its specification.
  - `fs_utils.rs` — image extensions, safe output paths, file sizes, name
    sanitising, directory listings.
  - `magick.rs` — `magick` argument vectors, reading `identify` output and
    EXIF metadata, the recipe-suffixed safe output path.
  - `recipe.rs` — the recipe model: output paths, resolved arguments,
    validation, and merging user recipes over built-in ones.
  - `config.rs` — colours, themes, settings and configuration paths.
  - `layout.rs` — where each panel goes on the screen.
  - `app*.rs` — the interactive state: every key press, tick and outcome of
    outside work is a verified transition from state to state, handing back
    the work (listing a directory, spawning `magick`, …) as effects.
  - `laws.rs`, `key_laws.rs` — properties of the library as a whole.
- `tests/` — tests run against the compiled library.
- `app/` — the program: the terminal loop, drawing, the file system,
  child processes, TOML files and the command line.
