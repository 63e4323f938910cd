# validator-firewall

An IPv4 packet firewall for validator nodes. UDP packets to protected ports
pass or are dropped by their source: close to the node's leader slot everybody
passes but the denied, far from it nobody but the allowed.

- `src/` is the library: every decision, with its contract, proved by Verus.
- `tests/` runs it on concrete values.
- `app/` is the daemon and the kernel program around it: files, sockets, system
  calls and kernel tables.
