# Portus

Port collision prevention for developers: a daemon brokers the ports of a
development machine, so that no two services end up on the same one. A service
asks for a port and gets a lease on it, confirms the lease once it has bound the
port, keeps it alive with heartbeats and releases it at its end.

The library in `src/` is verified with Verus; `app/` is the program around it. The
program is the client under the name `portus` and the daemon under the name
`portusd`, so that it is installed once and linked under the other name.

## Layout of the library

| Module | What it holds |
|--------|---------------|
| `model` | leases, their states and their lifecycle |
| `leases` | what a registry holds, as a map from ids to leases |
| `registry` | the registry: allocation, confirmation, heartbeats, release, expiry, recovery |
| `guarantees` | what holds of every registry, whatever the order of the calls |
| `daemon` | the answer to a request, the sweep, the idle shutdown |
| `port_check` | the search for a free port |
| `scan` | listeners in the output of `lsof` and `netstat`, and ending them |
| `protocol`, `transport` | requests and responses, and their frames |
| `cli`, `client`, `report` | what the command line client decides and prints |
| `mcp` | the tools for coding agents |
| `dashboard` | what the dashboard shows |
| `paths`, `clock` | where files are, what time it is |
| `text`, `decimal`, `sort` | text, numbers and stable sorting |

## What the host says

Whether a port can be bound, which ports are in use, whether a process is alive
and whether a file could be written is the host's to say. The library asks
through functions that its caller passes in, and its contracts speak of their
answers; they hold for every answer. Time is read through `chrono`, ids come from
`uuid`, the home directory from `directories`; each of these calls stands in a
small function whose contract is believed, with a comment on what it claims.

## What is proved

- No two live leases share a port, and no service holds two, whatever is asked of
  the daemon and in whatever order (`guarantees`, `daemon`).
- Only the holder of a lease's token acts on it; any other attempt fails and
  changes nothing.
- Nothing but an allocation makes a port held.
- What is acknowledged has been handed to the writer in exactly that state. The
  writer is handed nothing else, and nothing at all where nothing changed.
- A registry that is loaded from the entries that were saved holds the same leases.
  This is proved over the entries; that the file gives them back is up to `app/`.
- The processes on a port are told to end in order, each once, none after a failure
  and none that the scan did not find.
- A frame that is sent is received as it was, whatever follows it.
- No sweep expires a lease until the daemon has run for its startup grace.
- A client starts the daemon at most once, and only if it could not reach one; it
  sends its request once, on the first connection it gets.
