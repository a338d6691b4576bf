# hap

The core of a HomeKit accessory server, with contracts that Verus proves.

- `src/` is the library: configuration and setup codes (`config`, `pin`, `setup`, `numeral`),
  the address to serve on (`net`), events and subscriptions (`event`, `subscription`), the routes
  and the answers that the server gives itself (`server`, `http`, `prepare`, `resource`), and the
  mDNS announcement (`mdns`). `outside` holds what is taken from outside crates, with the contracts
  that are believed of it; what depends on chance or on the machine stands in `config`, `net` and
  `setup`, where it is used.
- `tests/` runs the library.
- `app/` is the server around it: sockets, HTTP connections, the mDNS responder and the stored form
  of the configuration. Encryption, handlers and storage are plugged in through its traits.
