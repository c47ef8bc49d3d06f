# builder

Builds a static site: every markdown file under an input folder is rendered to HTML, put
into a layout template (`template.html`) together with a per-page title and description,
and saved under the output folder at the same relative path with the extension `html`.
A résumé page can be assembled from several of the sources.

- `src/` is the library, verified with Verus: text search and replacement, page metadata,
  the style-block stripping, page and résumé assembly, the decisions of the directory walk,
  argument validation, and the error messages. Markdown rendering (`pulldown_cmark`) and the
  standard library's path operations are called through small trusted wrappers whose
  results are named in `src/paths.rs`, `src/text.rs` and `src/functions.rs`.
- `app/main.rs` is the program: argument parsing (`clap`), reading the folder, writing files.
- `tests/` exercises the library.
