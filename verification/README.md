# snip

A screenshot and annotation tool for GNOME/Wayland, with its logic verified
by Verus.

- `src/` is the verified library: the brush and rectangle tools
  (`tools`), the undo/redo history (`history`), the editor's reactions to
  presses, motions, releases, buttons and shortcuts (`editor`), and the
  names and paths of screenshot files (`naming`), with the calendar text
  of a moment and the text order that file names sort by (`stamp`). Coordinates, colours and
  line widths are type parameters of the tools, so the library holds no
  floating-point arithmetic.
- `app/` is the GTK program around it: the command line, the screenshot
  portal, the editor window, drawing with cairo, the conversion of pointer
  positions to image coordinates, and the saved brush settings.
- `tests/` runs the library on concrete values.
