# vk_kernel

The kernel of a node that runs tasks for a person: what it keeps, who may do what to
it, what an arch is shown and what a harness is let do. It is a library in Verus: what it
does itself is verified, and what it has from other crates and from the standard library
is believed.

- `src/` is the library. Each operation of the kernel is a function on what the kernel
  holds (`KernelView` in `kernel.rs`), and each executable method is proved to do exactly
  that. What spans operations is stated in the modules that end in `_laws` and at the end
  of the module it is about.
- What is believed is marked where it stands: the functions with
  `#[verifier::external_body]`, whose bodies are not read, and the items that begin with
  `assume_specification`, which have none. Above each stands what it claims. They are the
  calls in `src/outside.rs`, the upper case of a text in `src/adapter.rs` and one more
  character at the end of a text in `src/text.rs`. A spec function without a body names
  what such a call returns. Every other function with a body is verified against its
  contract.
- `tests/` runs the library.
- `app/` is what a process needs around it: the endpoint, the files, the keyring, the
  harness process and the façade that a harness speaks to.

The modules, from the bottom up:

- values: `text`, `path`, `table`, `json`, `json_laws`, `pretty`, `model`, `hash`, `outside`,
  `expiring`, `listing`
- what is kept: `labels`, `principal`, `manifest`, `register`, `task`, `mount`, `store`,
  `error`
- the kernel: `kernel`, `keeping`, `opening`, `boot`, `recovery`, `stops`, `leases`, `devices`,
  `approvals`, `presence`, `governance`, `artefacts`
- arches: `adapter`, `ir`, `projection`, `arches`, `mock`, `infer`
- tasks: `tasks`, `scheduler`, `top`, `ns`
- harnesses: `workspace`, `launch`, `confine`, `netwatch`, `harness`, `runs`
- the endpoint: `wire`, `reading`, `screens`, `rpc`, `challenges`, `transport`,
  `settings`, `methods`, `dispatch`, `mcp`
- a store that cannot keep what it is handed: `durable`, `durable_rows`, `durable_runs`, which
  say what each operation does and answers for every answer of the store
