# selection_monitor

A desktop selection monitor for Windows. It watches the left mouse button, and
when the button was held long enough to have selected something, it prints the
selected text. It reads the selection through the accessibility interface, and
where that yields nothing it copies the selection through the clipboard and
puts the clipboard back. It also has a procedure that recognises the text in an
area of the screen.

`src/` holds the decisions, verified with Verus. Each procedure is a state
machine: a function from a state and the reply to the outstanding call to the
next state and the next call. Its contract states the transition exactly, and
the `law_` proof functions state what whole runs do.

| module | what it decides |
| --- | --- |
| `mouse` | which presses of the left button are posted |
| `session`, `worker` | the life of the hook and of the worker |
| `selection` | reading the selection, and when to fall back to the clipboard |
| `copy`, `snapshot`, `keys`, `clipboard_text` | copying a selection and preserving the clipboard |
| `detection` | what is reported |
| `screen`, `bitmap`, `ocr` | capturing an area and recognising its text |
| `text`, `utf16`, `number` | white space, UTF-16, decimal numerals |
| `machine` | runs of state machines |

`app/` performs the calls. `desktop.rs` names them, `drive.rs` and `ocr.rs` run
the procedures over them, and `win32.rs` makes them on Windows.
