# sandboxd

A provider of short-lived Linux sandboxes: Firecracker microVMs that are created over
HTTP, run commands, are stopped or parked when idle and are billed by what they use.

The decisions are a library that Verus verifies; the program around it does the I/O.

## Layout

- `src/` is the verified library.
  - Requests: `admission` checks them, `scheduler` and `placement` find a node, `create`
    reserves room and records the boot, `service` and `lifecycle` move a sandbox from
    state to state, `store` says what a stored record becomes.
  - Money: `knobs`, `catalog`, `capacity`, `pricing` and `usage` count in whole steps.
    Costs and prices are exact; they are rounded where they are shown.
  - Microvms: `runtime` plans every operation on a VM as data (`runtime::plan`), keeps the
    table of VMs, and brings it back after a restart. `runtime::answer` reads what the guest
    agent answers. `runtime::mock` is the development runtime.
  - Networks: `egress` writes nftables policies and answers DNS, `dns` and `netaddr` read
    packets and addresses.
  - The rest: `auth`, `secrets`, `builder`, `bench`, `background`, `agent`, `api`, `views`,
    and the text, number and JSON routines they share.
- `app/` is ordinary Rust: the command line, HTTP, SQLite, processes and sockets. It hands
  plain values to the library and carries out what comes back.
- `tests/` runs the library on concrete values.

## Units

Times are nanoseconds since 1970. CPUs are thousandths, node memory is KiB, sandbox memory
is MiB. Prices are billionths of a US dollar; balances and costs are cost steps, of which
`usage::COST_STEPS_PER_USD` make a dollar.
