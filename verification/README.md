# statix-agent

An agent that runs on a node: it logs the node in, reports what the node is and how busy it is,
and runs the jobs that the server gives it in virtual machines and containers.

- `src/` is the library: what the agent decides and computes, with contracts that Verus proves.
- `app/` is the program around it: files, processes, the network, the terminal.
- `tests/` runs the library on concrete values.

## The library

| Module | What it holds |
| --- | --- |
| `agent` | jobs and how they are carried out: tests, deployments, checkouts, bundles, updates, and the session with the server |
| `cli` | the arguments of a login |
| `config` | the configuration from the environment and the file, and the addresses of the server |
| `enrollment` | the login of a node |
| `environment`, `paths` | variables and paths, as plain texts |
| `failure` | failures with their causes |
| `jobs` | commands, their output, and the runners: `host`, `microvm`, `container` |
| `logs` | records, redaction, the spool of files, and queries in pages |
| `metrics` | memory, disks and network |
| `system_info` | what the node is: versions, hardware addresses, graphics processors |
| `wireguard` | the tunnel |
| `bytes`, `digest`, `string_map`, `text`, `dependencies` | what the others share |

Work that alternates with the outside world is a state machine: the library takes an event and
gives the next step, and the program carries the step out. This is so of a session
(`agent::session`), a deployment (`agent::deploy`), a checkout (`agent::git`), a request for an
update (`agent::update`), a login (`enrollment::flow`), a run in a virtual machine
(`jobs::microvm::run`), the wait for it (`jobs::microvm::readiness`) and a run in a container
(`jobs::container::run`).

Beside the contracts stand laws, as public proof functions. Among them: what a shell reads back of
an escaped command (`jobs::shell`), that pages of the log leave nothing out and show nothing twice
(`logs::paging`), that the ids of a process's records are all different and grow (`logs::spool`),
that no secret is left behind a marker (`logs::redact`), that jobs are begun in
the order in which they came, one at a time and with at most one final status
(`agent::session`), that a login tells the server of its end only after it saved what it was given
(`enrollment::flow`), and that a machine or a container that was made for a job is ended with it
(`jobs::microvm::run`, `jobs::container::run`).

## What is not proved

Six contracts are taken for granted. Five are those of small functions that call what lies outside:
`bytes::lossy_text` and `bytes::exact_text` (decoding of UTF-8 in std), `digest::sha256_of` (the
crate `sha2`), `digest::hex_of` (the crate `hex`) and `digest::default_hash_of` (the hasher of std).
The sixth is that of `String::push` of std, in `text::chars`.

The name resolution of a container is not configured by the program. The library decides whether
it is to be configured and what follows when it was (`configures_guest_dns` and `after_guest_dns` in
`jobs::container::lxc`); which name servers a container is given, the script that writes them down,
and its place among the steps of a run are left out.

The image that a job names is kept with the job, but machines boot the one that the environment
names (`jobs::microvm::image::boot_image`).

In `app/` values are written as JSON and read from it, by derived code. The load of the processors
is a floating-point number and is computed there too.
