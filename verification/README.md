# screen_ruler

The measurement and interaction logic of an edge-detecting screen ruler, as a
Verus library. Verus proves the contract of every function in `src/` but one:
`png::write_rgba8_png`, the wrapper that drives the `png` crate's encoder, is
trusted, and its doc comment says what its contract claims of that crate.

| Module | Responsibility |
|---|---|
| `edges` | The binary edge map measurements run against |
| `measure` | Ray casting, edge snapping, shrink-to-fit, and their laws |
| `image` | Owned RGBA images |
| `export` | Cutting an exported region out of a framebuffer readback |
| `shm` | Decoding compositor shared-memory frames into RGBA |
| `png` | PNG encoding for the clipboard, through the `png` crate |
| `state` | Modes, controls, key and click decisions, destructive actions, expiring values |
| `session` | Annotations with undo/redo and the confirm-before-discard flow |
| `help` | The context-sensitive shortcut overlay text |
| `desktop` | Monitor hit-testing, ordering and matching on the virtual desktop |
| `capture`, `clipboard` | Capture errors and hints; clipboard helper selection |

`app/` holds the platform shell: screen capture through `xcap` and
`wlr-screencopy`, clipboard I/O, and the floating-point measurement text.
