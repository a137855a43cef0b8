# pxu_gui

The decisions behind the PXU figure, plot and presentation tools, written in
Verus and proved against their contracts.

- `src/` is the verified library: how the LaTeX figure writer crops contours,
  styles cuts and splits paths; how the compiler collects and judges LaTeX
  errors; the path and contour providers and their usage reports; the state
  of the interactive plots; the frames of a presentation, how it moves
  between them and when its images are rebuilt; and the MD5 checksums it
  compares.
- `app/` holds the programs around it: command lines, files and processes,
  serde copies of the description types, and the floating-point arithmetic
  of coordinates and transitions.
- `tests/` runs the library on concrete values.

Floating-point numbers never enter the library; where a description carries
one, the library keeps its IEEE-754 bit pattern.
