# hop6

A serverless, peer-to-peer terminal messenger that communicates exclusively over Tor v3 onion
services. Each instance publishes its own onion address and connects directly to its peers.

The project has two parts.

- `src/` is the library. Its logic is verified with Verus: what every function returns or changes
  is stated in its contract and proved. (Of a freshly generated key only the form is stated: which
  key it is rests on chance.) It performs no I/O.
- `app/` is the program around it: sockets, files, the clock and the terminal.

| module | what it holds |
|---|---|
| `app`, `app_model` | the application state, and how keys and network events change it |
| `app_laws` | the invariant of that state, and what holds over several keys and events |
| `message`, `wire` | the events and commands between network and interface; the JSON line of a message |
| `network` | the decisions of the connection manager, of a dial and of one peer connection |
| `delivery` | a message on its way from one user to another |
| `tor` | onion addresses, the persisted identity, publishing the service and keeping it published |
| `contacts`, `files` | the address book, and where files are |
| `ui` | what the terminal shows, as styled text |
| `cli` | the command line, and one round of the terminal loop |
| `text` | white space, splitting, decimal numbers |

What is trusted rather than proved is marked where it stands: the string encoder and the
address-book reader and writer of `serde_json`, the key generation and address derivation of
`torut`, and `String::push` and `String::pop`.

## Running

A Tor daemon with `SocksPort 9050`, `ControlPort 9051` and `CookieAuthentication 1` has to run on
the same machine. The program listens on `127.0.0.1:8080`, or on the port given with `--port`.
