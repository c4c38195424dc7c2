# console_markdown

Renders markdown (GitHub flavour) as text for a terminal: strong, emphasis
and struck text in ANSI styles, headings in bold (the first level underlined),
block quotes behind a bar, ordered, unordered and task lists, tables drawn
with box characters and padded to their widest cell, fenced code highlighted
by syntect, links as terminal hyperlinks, and reference links resolved
against their definitions.

The library is written in Verus. Every function of the renderer is proved to
produce the text that a specification over the tree model (`tree::Tree`)
describes.

- `tree`: the syntax tree the renderer reads (`MdNode`) and its model `Tree`.
- `spec`: what the rendering of a tree is, and which trees can be rendered.
- `render`, `table`: the renderer, proved against `spec`.
- `text`: lines, joining, repetition, whitespace, decimal numbers, and the
  visible width of a line holding escape sequences.
- `links`: resolution of reference links.
- `mdast`: parsing with the `markdown` crate and conversion of its tree,
  proved to give the tree that the parser's nodes hold.
- `highlight`: highlighting of code with `syntect`: one trusted call per
  syntect function, with the choice of syntax, the lines and the loop proved.
- `console`: `render_markdown_for_console`, from text to console text.
- `laws`: properties proved of all inputs (block separation, width of styled
  text and of escape sequences, alignment of table lines, reference links,
  resolving twice, no defined reference left, inline content of runs of
  nodes, splitting and joining, lines with their endings).
