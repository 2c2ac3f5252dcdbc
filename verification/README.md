# eiderflat

The editing core of the eiderFLAT 2D CAD system, written in Verus: every
function under `src/` carries a contract that Verus proves.

- `clip`, `closing`: Greiner–Hormann polygon clipping on the combinatorial
  level (edge crossings and their order along each edge in, result loops
  out), with the proof that every walk closes when the crossings pair up.
- `selection`, `document`: window, crossing, fence and predicate selection
  over the editable entities of a drawing; the drawing and its layers.
- `words`, `command`, `input`: the command line — words, verbs and their
  aliases, typed coordinates, and what a typed line does for the active tool.
- `tools`, `menus`, `ui`, `properties`, `infer`, `raster`, `text`: tool
  hotkeys and prompts, the dock and modify menus, line weight and line type
  labels, and the pixel bounding box used to fit icons.
- `history`, `session`, `dispatch`, `modify`: undo and redo; the editing
  session (adding, erasing, selecting, the layer panel, unsaved changes);
  running commands and typed lines in it, with the last command kept for
  repeat; and the clicks of the pick-based modify tools.

Floating-point geometry (edge intersections, point classification, number
parsing) stays outside the verified library, in `app/`, which also holds a
small command-line host: `demo` runs a clipping demo, and without arguments
it reads command lines from standard input (lines starting with `#` stand
for mouse work: `#pick`, `#window`, `#repeat`, `#layers`, ...).
