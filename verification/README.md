# GeserDesk

A software KVM: one keyboard and mouse drive several computers over the local
network, with its own wire protocol.

## Layout

```
src/    the library, written and proved with Verus
        version, geometry, input, clipboard, time, message   -- protocol types
        codec     -- length-prefixed framing (`[u32 LE length][payload]`)
        layout    -- screen adjacency and the edge-switch policy
        config    -- checking a server configuration
        server    -- handshake decision, keep-alive bookkeeping
        client    -- handshake checks, routing of server messages
        inject    -- input sinks and planning of OS input injection
tests/  tests of the library
app/    the `geserdesk` program: CLI, TOML loading, postcard encoding,
        TCP sessions on tokio, input injection through enigo
```

The library holds the protocol's decisions; `app/` performs the I/O and hands
the library plain values. Messages are encoded with postcard in `app/`, which
keeps serde-derived copies of the protocol types and converts them to and from
the library's types.

The transport is plain TCP: use it only on a trusted network.
