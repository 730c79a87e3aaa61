# tunnel_sim

A verified model of the simulation that tests a tunnel client, a gateway and a TURN
relay against a reference state machine.

`src/` is the library, verified with Verus:

- `net`, `sample`: addresses, CIDR networks (through `ip_network`) and random indices.
- `resource`, `table`: the client's CIDR resources in a longest-prefix-match table
  (through `ip_network_table`).
- `reference`: the reference state machine, its transitions and its laws.
- `node`, `relay`, `text`: the simulated nodes and relay, what the relay forwards, and
  the relay's credentials.
- `setup`: how nodes, relays and tunnel addresses are drawn.
- `harness`, `echo`, `portal`: the order in which the harness polls the components,
  where packets are delivered, the checks after each transition, and the stub portal.

`tests/` runs the library on concrete values. `app/` is the property-based test that
drives the real components with `proptest-state-machine` and asks the library for every
decision.
