# kaf_cli

Converts novels written as plain text or Markdown into EPUB books.

The library under `src/` holds the logic, written in Verus and proved
against its contracts:

- `config/` — the layered settings of a book (defaults, configuration
  file, command line), their parsing and their validation;
- `parser/` — chapter and volume detection in plain text, paragraph
  building, and Markdown: its events made safe (raw HTML written out as
  text, link and image targets filtered), cut into sections at headings,
  with footnotes following the sections that refer to them;
- `converter/` — the pages, style sheets, header images and resources of
  an EPUB;
- `style/` — themes and CSS generation;
- `batch/` — which files of a folder are converted, the order of the
  work, and the report of a batch;
- `utils/` — text encodings, file names, HTML escaping, regular
  expressions and cover images.

Calls into outside crates (regex, encoding_rs, chardetng, pulldown-cmark,
image, chrono) go through small trusted wrappers whose contracts say what
the library relies on.

`app/` is the command-line program around the library: arguments, files,
the network, the EPUB writer and the batch loop.
