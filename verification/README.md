# makepdf

Builds PDF planners for e-ink devices from [Luau](https://luau.org/) scripts.

The crate is in two parts:

- `src/` is the library, verified with Verus: the proleptic Gregorian calendar behind
  planner dates (`calendar`, `date`, `weekday`), the pages of a planner year and the hooks
  run on them (`pages`, `planner`, `engine`), the drawing order of the objects queued on a
  page (`queue`), the order, titles and links of the pages of a document, the loading of
  its font and its writing out as PDF (`engine`), and the text by which scripts and the
  command line name styles, links, object types, dash patterns, colors, paddings, page
  sizes, scripts and output files (`style`, `object`, `pattern`, `color`, `padding`,
  `size`, `script`, `cli`, `text`). Calls into chrono, palette, owned_ttf_parser and
  printpdf stand behind small functions whose contracts say what the library relies on.
- `app/` is the program around it: the command line, logging, reading and writing files
  (the font, the scripts and the document; the bundled font and scripts are read from
  `assets/` at run time), the Lua runtime and its bindings, and the drawing with printpdf,
  whose measures are floating point.

Usage:

```sh
# Make a PDF using the default script path of `makepdf.lua`
makepdf make

# Make a planner for specific device dimensions
makepdf make --dimensions 1404x1879px
```
