# minad

The daemon of a text editor, as a verified library. The daemon holds what all clients share: the
open documents, a pane per client, the mode and its insert session, the log of changes, review
comments, the registered base trees, and what language servers have said of the files. Clients ask
over a socket; a text editor's screen and one-shot tools use the same requests.

`src/` decides. It does no I/O: it takes what the disk, the text engine and the language servers say
as arguments, and says what is to be done next. Every function there has a contract that Verus
proves, and `daemon::Daemon::wf` is the invariant that all of them keep. What Verus believes without
proof are the contracts of calls out of the library: the functions `quoted` (in `strings`), `parse`
and `edit_tree` (in `syntax`), and the `assume_specification` items in the same two modules.

| module | what it holds |
| --- | --- |
| `types`, `strings`, `text`, `paths`, `lists`, `table`, `sessions` | values and their arithmetic |
| `editor`, `daemon`, `log`, `languages` | the state |
| `clients`, `connection`, `process`, `finish` | connections, and requests from first to last step |
| `commands`, `edits`, `open`, `opening`, `watch`, `snapshot` | editing, files, what a client sees |
| `base`, `review` | read-only base trees and review comments |
| `serve`, `errand`, `analysis`, `outline`, `rename` | language servers |
| `syntax` | syntax trees and highlights |
| `laws`, `caches` | what holds of the whole |

A request goes in steps: `Daemon::begin_request` refuses it or names the next step, the step is
carried out outside, and one of the `finish_*` and `open_*` functions takes the outcome. Requests to
language servers are errands (`errand`): the server is turned to a file, asked, and turned back.

`app/` is the program around the library: the socket, the JSON lines, the configuration file and the
disk. It is generic over the text engine (`engine::TextEngine`) and the language servers
(`servers::Servers`).

`tests/` runs the library with a small text engine, and the syntax trees with the real parser.
