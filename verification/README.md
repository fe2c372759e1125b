# c0pl4nd

The logic of a terminal window, verified with Verus: panes and their layout, the
focus, typed input and shortcuts, pastes that wait for an answer, the command
palette and its history, selections and links, the scrollbar, the close path, the
drop-down window, and what is read of the preferences.

- `src/` is the library. Every function states in its contract what it returns
  and changes; the public proof functions state what holds across functions, such
  as that every action, every use of the tabs and every drag leaves at least one
  pane and no more than fit, with the focus on one of them, and that the panes are
  listed as the tiling tree shows them.
- `tests/` runs the library on concrete values.
- `app/` is the window around it: egui, files, the clipboard, and the geometry on
  screen, which is floating point. Terminal sessions and the parts of the window
  that are drawn elsewhere come in through the traits in `app/host.rs`.

What the library believes without proof stands with the items marked
`external_body` and `assume_specification`: a few functions of `egui_tiles`, the
names of egui's keys, and four functions of the standard library.
