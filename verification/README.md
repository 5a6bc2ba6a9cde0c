# apex-commander (verified core)

Desktop hands for agents on Linux: accessibility-tree snapshots and search,
element actions, waits, launching, screenshots and the safety policy around
them, offered as a command line and an MCP server.

The crate is written in Verus. `src/` holds everything that decides: element
ids, the query matcher over accessibility trees, the bounded tree walk, the
sensitive-app policy, the audit details, target resolution, the polling step
functions of the waits, the backend choices of input and capture, the portal
reply handling, the MCP tool catalog with its policy annotations, and the
doctor / selftest / field reports. Each public
function states its result in its contract and Verus proves the code against
it; the laws that relate several functions are public proof functions.

`app/` is the plain Rust around it: argument parsing, the D-Bus / AT-SPI
session, spawning helper processes, files, clocks, JSON and the MCP stream.
It reads the world, hands plain values to the library, and acts on what the
library returns.

- `src/` — verified library, one module per concern
- `tests/` — behaviour tests of the library
- `app/` — command-line and MCP front ends
