# winhint

Keyboard-driven hint navigation for Windows. Tap CapsLock, and every clickable
element of the foreground window gets a short label; type the label, or part of the
element's name, and it is clicked. Tap CapsLock twice, and the arrow keys resize the
window by its edges, or drag the splitters between its panes.

The library in `src/` makes every decision and is verified with Verus. It touches no
window: it takes what was read of windows, elements and keys as plain values, and says
what is to be done. The program in `app/` reads and acts.

| Module | What it decides |
| --- | --- |
| `hotkey`, `message` | what becomes of each key, and how intents travel to the window |
| `session` | the state of the overlay and what every intent does to it |
| `matching`, `hints`, `handle_labels` | labels, and what typed text matches |
| `frame`, `overlay` | what is shown, and the page and scripts that show it |
| `treewalk`, `scan`, `scanner` | which elements to look at, and which become hints |
| `splitter`, `resize`, `geometry` | pane boundaries, window edges, rectangles |
| `click` | simulated mouse input |
| `tray`, `options`, `report` | tray menu, command line, diagnostic listings |
| `text` | building and searching text |

`laws/` states what holds of the modules together: that labels are prefix-free and
typing one clicks its element, that nothing but modifiers leaks to other programs while
hints are shown, that a scan is depth first and never labels one spot twice, that Esc
restores a resized window, and more.
