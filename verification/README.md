# Filegram

A disk map: scan a folder, see its contents as nested bricks sized by how much
space they take, zoom into folders, open or trash what is too big.

## Layout

- `src/` is the library, written and proved with Verus. It holds everything
  the application decides: the scan tree built from the scanner's arena
  (aggregate sizes, children largest first, deletions), the window's state
  machine (`state.rs`: every message, the next state and the effects it asks
  for), the scan history and settings files as text, the size and path
  formatting, the mount-table parser and volume labels, the forty-one UI
  languages, the release-tag reader, the map's captions and file categories,
  and the rules of anonymous reporting (consent, bucketed properties, the
  queue's limits, time stamps). Each public function states its result in its
  `ensures`; the `law_*` proof functions state what holds across calls.
- `tests/` runs the library on concrete values.
- `app/` is the program around it: the iced window and its canvases (the
  treemap geometry and the zoom springs are floating point), the parallel
  filesystem walk, the trash, file and network I/O, and the loop that carries
  out the library's effects and feeds their outcomes back as messages.
