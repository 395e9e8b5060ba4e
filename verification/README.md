# swap-market-data

Market data of the eigenwallet XMR/BTC atomic-swap network: a headless collector
discovers makers, polls their quotes, and serves the current snapshot (a synthetic
orderbook) over a small REST API. It keeps only the latest snapshot.

There is one market, `XMR/BTC`, and each maker advertises one quote: a price and a
`[min, max]` size band. Quotes are indicative; they are neither resting limit orders
nor proof of any trade.

## Layout

`src/` is a library verified with Verus:

- `api`: the rows, the snapshot, and what `/orderbook`, `/quotes`, `/healthz` and
  `/readyz` answer.
- `ranking`: the order of the orderbook, makers with liquidity first and then by
  ascending price.
- `status`: what `/status` answers.
- `rendezvous`: which rendezvous addresses are used on clearnet, over Tor and through
  a SOCKS5 proxy.
- `socks`, `handshake`: which addresses a SOCKS5 proxy can be asked for, the CONNECT
  request, and the client's side of the handshake as a state machine.
- `address`, `base58`, `onion`, `version`, `quote`, `time`: the values that these
  work on. Calls into libp2p, semver, data-encoding and chrono stand behind functions
  whose contracts say what is taken from those crates.

`app/` is the program around it: arguments, the libp2p swarm, transports, sockets,
and JSON.

`tests/` runs the library with the outside crates linked.

## Configuration

| Flag | Env var | Default | Description |
|---|---|---|---|
| `--host` | `MARKET_DATA_HOST` | `0.0.0.0` | HTTP bind address. |
| `--port` | `MARKET_DATA_PORT` | `8080` | HTTP bind port. |
| `--testnet` | `MARKET_DATA_TESTNET` | `false` | Use the testnet rendezvous namespace. |
| `--tor` | `MARKET_DATA_TOR` | `false` | Route over Tor (uses onion rendezvous addresses). |
| `--socks-proxy` | `MARKET_DATA_SOCKS_PROXY` | unset | Route every connection through a SOCKS5 proxy `host:port`. Excludes `--tor`. |
| `--rendezvous` | `MARKET_DATA_RENDEZVOUS` | built-in public nodes | Comma-separated multiaddr override. |
