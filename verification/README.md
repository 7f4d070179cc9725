# tunneld

An HTTP reverse tunnel. A server gives a client a public subdomain of four random words and
sends the requests for it, over one connection that the client opened, to a service next to
the client.

```
public user -> https://flower-geek-episode-thirst.tunnel.le.ht
                                  |
                                  v
                           tunneld server  <-- HTTP/2 over TLS --  tunneld client -- http://127.0.0.1:3000
```

The decisions are a library, verified with Verus. The program around it does the input and
output.

## Layout

| path | what it holds |
|---|---|
| `src/proto.rs` | the data plane's prelude and reply, and the pacing of a body on a stream |
| `src/state.rs` | the server's tables, and what requests, clients and time do to them |
| `src/lifecycle.rs` | what holds of tunnels over their life |
| `src/data_conn.rs` | a client's connection to the data plane, step by step |
| `src/proxy.rs` | public requests into a tunnel, and the answers out of it |
| `src/client.rs` | the client, step by step, and its requests to the local service |
| `src/pump.rs` | bytes between streams, sockets and bodies |
| `src/websocket.rs` | the WebSocket handshake |
| `src/headers.rs`, `src/host.rs`, `src/auth.rs` | headers that stop at a proxy, routing by host, the bearer token |
| `src/names.rs`, `src/install.rs`, `src/reply.rs` | subdomains, the install script, the server's own answers |
| `src/text.rs` | searching, splitting and trimming of text |
| `src/outside/` | the types and functions of other crates that the library uses, with the contracts it relies on |
| `app/` | `main`, sockets, TLS, HTTP and the command line |
| `tests/` | tests of the library on concrete values |

Each function that awaits something is a step: from a phase and an event to the next phase and
an action, which `app/` performs. Public functions named `law_*` are proofs about several
functions at once: that a prelude is read as it was written, that a tunnel has at most one
client and ends with it, that a body arrives whole, that only the secret opens.

## Running

The server draws subdomains from a list of at least 10240 words, one on a line, in the file
that `--wordlist` names.

```sh
TUNNELD_SECRET=<token> tunneld server --domain tunnel.le.ht
TUNNELD_SECRET=<token> tunneld client --local 127.0.0.1:3000
```

| path | host | purpose |
|---|---|---|
| `/api/tunnels` | apex | control plane: create, list, delete |
| `/health` | any | liveness |
| `/install` | apex | shell installer |
| `/dl/*` | apex | static binaries |
| `/*` | `<sub>.<domain>` | proxied to that tunnel's client |
