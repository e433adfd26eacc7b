# resumec

A resume compiler: it reads a resume written in JSON, YAML or TOML, checks it
against the resume schema, lays it out under a theme and writes PDF and DOCX
documents. It also answers MCP requests over stdio.

## Layout

- `src/` is the library, verified with Verus. It holds the resume and theme
  models and their validation rules, the text of a rendered resume, line
  wrapping, the DOCX document, the choice of reader by file extension, the
  theme listing, the options of a build, the configuration command and the
  MCP request planning. Contracts state the results exactly; laws of the
  library (safe file names, lines that fit, characters kept by wrapping,
  section titles in theme order, the theme listing) are public proof
  functions.
- `app/` is the command-line program around it: argument parsing, files,
  the network, serde, the PDF writer (floating-point page geometry) and the
  MCP stdio loop.
- `tests/` runs the library on concrete values.

Type sizes and widths are held in hundredths of a point, so that the layout
is computed and reasoned about exactly.
