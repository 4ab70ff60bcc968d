# rns_proxy

A SOCKS5 proxy that tunnels TCP connections over the Reticulum Network Stack
(RNS), with its core verified in Verus.

- `src/` is the verified library: the multiplexed frame format
  (`[type][session_id][payload_len][payload]`, big-endian), reassembly of
  frames from link packets and the cutting of frames into packets of at most
  `LINK_MDU` bytes, the CONNECT payload (`host:port`), the server address
  (hex of the destination hash), the session table of a link, and the
  decisions of the client (link set-up, dispatching, reconnection with
  backoff, the SOCKS5 session) and of the server (per-link multiplexers).
- `app/` runs them: the command line, the RNS node and its callbacks, the
  SOCKS5 protocol, TCP connections and the event loops.
- `tests/` exercises the library on concrete values.
