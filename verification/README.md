# RTWins

`RTWins` is a library for building visual terminal applications: colors and font attributes,
cursor and screen control, keyboard and mouse input decoding, and a set of widgets (windows,
panels, labels, edits, check boxes, radios, buttons, page controls, lists, combo boxes, text
boxes) drawn through a small platform abstraction layer.

The library is written in Verus: the verifier proves the library's functions against their
contracts, which speak of mathematical models of the terminal output, the input queue and the
widget tree.

## Layout

- `src/common.rs` - coordinates, sizes, rectangles, font attributes
- `src/colors.rs`, `src/esc.rs` - color identifiers and ANSI escape sequences
- `src/string_ext.rs` - display width of text with escape sequences, character-index editing
- `src/input.rs`, `src/input_decoder.rs` - input events and the decoder of terminal byte
  sequences into keys, characters and mouse events
- `src/pal.rs`, `src/terminal.rs` - the platform abstraction layer and the terminal with its
  color and attribute stacks; the terminal's ghost field `sent` records the text it hands to the
  PAL, and the contracts of its methods say what text each one sends; `marks` records where the
  PAL was told that log text starts and ends, and `flushed` whether the PAL was flushed since it was last handed text
- `src/debug_trace.rs` - buffered trace messages
- `src/widget_def.rs`, `src/widget_impl.rs`, `src/widget_draw.rs` - widget definitions,
  navigation and input handling, drawing
- `src/wnd_manager.rs` - stack of visible windows
- `src/utils.rs` - word wrapping, number editing, decimal text
- `app/` - what talks to the operating system or keeps process-wide state: reading the tty,
  the global terminal and trace buffer, the theme color registry
- `tests/` - tests of the library

Window states and window managers are traits that the application implements. A window
manager also gives `visible_windows`, the specification view of its list of visible windows,
and a window state gives the specification views of what its query methods answer: its
widgets, screen position, focused widget, visible, enabled and page states, combo box, list
box and text box states, the text of text-less buttons, the widgets to redraw and the answer of its own
handler to unhandled input (`widgets_spec`, `window_coord_spec`, `focused_spec`,
`visible_spec`, `enabled_spec`, `page_index_spec`, `combo_state_spec`, `list_state_spec`,
`text_box_spec`, `button_text_spec`, `invalidated_spec`, `unhandled_spec`). The contracts of the callbacks that
set a page, a selection, a value, a scroll position or the focus say how these views change; an implementation
that is not verified gives these views a body that is never run. The widget state's ghost field
`window_calls` records the check box toggles and radio selections the library hands to the
window.
