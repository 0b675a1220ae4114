# html_exporter

The verified core of the notes exporter: it takes the HTML that Typst's HTML
backend produces for a chapter of the notes and builds the public page.

- `src/` is the library, verified with Verus: the notes metadata, headings,
  bibliography and endnotes read from Typst's HTML; stable section and
  statement ids; cross-reference blocks; citations as side notes with
  suffixed keys; numbered footnotes; Typst math rendered as KaTeX source;
  the page shell with its masthead or chapter rail, table of contents and
  chapter citation; the export configuration's checks; the command-line
  settings.
- `app/` is the program around it: command-line parsing, reading the
  export configuration, compiling with Typst, writing the page.
- `tests/` runs the library on concrete inputs.
