# mochi

A terminal emulator core whose behaviour is stated in Verus contracts and
proved.

## Layout

- `src/` — the verified library
  - `color`, `cell`, `cursor`, `line`, `grid`, `screen`, `scrollback`,
    `selection`, `snapshot`, `term`: the screen model (cells, lines, the
    grid, the primary and alternate screens, history, selection, snapshots)
  - `params`, `action`, `parser`: the VT/xterm escape sequence parser, as a
    state machine whose output does not depend on how the input is chunked
  - `performer`: applies parsed actions to a terminal
  - `input`: key, mouse, focus and paste encoding
  - `shortcuts`, `clipboard`, `tabs`, `split_pane`: the decisions of the
    application — key shortcuts and wheel handling, the text a copy takes,
    the tab bar, and the split pane tree
  - `replies`: replies to status, device attribute, capability and palette queries
  - `config`, `size`, `split`, `event`, `text`, `views`: configuration
    values and checks, sizes, pane rectangles, events, text helpers
- `tests/` — tests of the library
- `app/` — a headless program around the library: configuration files,
  environment and arguments, standard input as the program output, the
  floating-point pane geometry, and JSON snapshots

## Running

The program reads a program's output on standard input and prints the
final screen:

```
printf 'hello\r\nworld' | mochi --columns 20 --rows 5
printf '\033P+q5463\033\\' | mochi --show-replies
```
