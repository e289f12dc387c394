# natpmp

Keeps a ProtonVPN port-forwarding lease alive and optionally syncs the assigned
port to qBittorrent.

ProtonVPN's P2P servers expose a NAT-PMP gateway at `10.2.0.1`. The program
requests a forwarded port, renews the lease before it expires, and prints the
current public port to stdout on each renewal. Status messages go to stderr.

```
natpmp --gateway 10.2.0.1 --interface proton0 --port-file /run/natpmp.port
natpmp --gateway 10.2.0.1 --interface proton0 --once
natpmp --gateway 10.2.0.1 --interface proton0 --qbt-url http://localhost:8080
```

## Layout

`src/` is the library. It is verified with Verus and performs no I/O: each
decision of the program is a function from plain values to plain values.

| Module | What it decides |
|---|---|
| `natpmp` | the wire format of requests and responses |
| `transaction` | one request/response exchange: retransmission, stale responses, errors |
| `gateway` | the default gateway, out of each system's routing table |
| `interface` | interface names, and adapters with their addresses |
| `qbt` | the qBittorrent session: login, cookie, listening port |
| `session` | the renewal loop: what to map next, and when to renew |
| `addr`, `text` | IPv4 addresses and text |

`app/` is the program around it: the command line, sockets, HTTP requests, system
calls. `tests/` runs the library against scripted gateways and servers.

The functions whose names start with `law_` state what holds of the library as a
whole, such as that a request is sent at most nine times whatever arrives.

One fact is taken on trust: that `HeaderValue::to_str` gives a text exactly for
visible ASCII (`header_text` in `src/qbt.rs`).
