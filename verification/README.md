# termsnow

Falling snow in the terminal, drawn with half blocks, sextants or braille
patterns over a solid or gradient background.

## Layout

- `src/` is the verified library (Verus): colors and their text forms,
  images, the frame of character cells and how images are drawn into it
  (two-color clustering per cell), the escape sequences written to redraw
  a frame in full or only where it changed, the decoder of terminal input
  (keys, mouse reports, cursor reports) and the state of a terminal
  session. Each public function states its result in its contract; the
  public proof functions state the laws that relate functions, such as
  that a color's or a fill's text parses back to it, that decoding always
  takes input, or that redrawing an unchanged frame writes nothing.
- `app/` is the program around it: command line arguments, the terminal's
  file descriptors, raw mode, epoll and resize signals, and the snow
  effect itself, which moves its particles in floating point.
- `tests/` runs the library on concrete values.
