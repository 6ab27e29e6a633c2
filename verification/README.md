# ember-term

The decisions of a terminal multiplexer, as a library whose behaviour is proved with Verus, and
the program around it.

`src/` holds the library: executable Rust with contracts. It decides what keys, clicks, drags,
commands and reports come to; what is saved of a session and what is read back; and what the
control socket and the tool server answer. It draws nothing and opens nothing: times, sizes and
hits come in as plain values, and what has to be done goes out as plain values.

| Modules | What they decide |
|---|---|
| `text`, `json`, `paths`, `calendar` | texts and numbers, JSON values, file names, time stamps |
| `layout`, `snapshot`, `archive`, `writer` | trees of panes, saved sessions, their archives, when to write |
| `control`, `wire`, `mcp`, `report`, `commands` | the control socket, the tool server and their replies |
| `keys`, `keyboard`, `overlay`, `titles`, `selection` | keys, shortcuts and the overlays that take them |
| `drag`, `gesture`, `mouse`, `events` | the pointer: clicks, holds, drags, drops, reports to programs |
| `windows`, `tabs`, `backend` | windows, tabs, what the shells report |
| `wisp`, `pacing` | what moves, and when the next frame is due |
| `screenshot`, `startup` | the arguments of the program |

Functions named `law_` are theorems: what the functions of the library promise together.
Fractions are carried as their bits or as text and are never computed with here.

`tests/` runs the library. `app/` is the program: sockets, files, the event loop, and what is
measured in fractions of a pixel. The renderer, the shells and the desktop are behind the traits
of `app/front.rs`.
