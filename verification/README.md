# decman

A manager for decentralized Canton parties: a node that invites its peers to
workflows, takes part in theirs, and signs in for the parties it is a member of.

## Layout

- `src/` is the library: what the node decides and computes, with contracts that
  Verus proves.
  - `auth.rs`: tokens, how they are asked for, used and renewed.
  - `cli.rs`, `startup.rs`, `config.rs`: from the command line to the node's
    configuration.
  - `server/invitations.rs`, `server/invitation_laws.rs`: invitations that wait
    for the operator, and what holds of them as a whole.
  - `server/workflows.rs`: which runs are taken up, cancelled and retried.
  - `server/listener.rs`, `server/chunks.rs`: what peers are answered, and how
    large answers are handed out.
  - `server/peers.rs`: who may connect, who sent a request, who is up.
  - `server/owner_keys.rs`: what peers are told of Canton.
  - `server/boot.rs`: what is decided before the node serves.
  - `outside.rs`: the calls into other crates, with contracts that are believed.
  - `text.rs`, `map.rs`, `counting.rs`: what the rest is built on.
- `tests/` runs the library.
- `app/` is the program: I/O, the network and the clock around the library. Its
  `host.rs` says what a deployment supplies (the store, Canton, the wire format
  and the workflow engine); `standalone.rs` is a node linked to none of these.

A contract speaks of texts as sequences of characters, of lists as sequences and
of maps as maps. The functions named `law_..` state what holds across calls.
