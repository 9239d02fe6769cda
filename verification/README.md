# shvessel

The core of a small command shell for platform-driven (embedded) code:

- `reg`: a registry of named commands and their callbacks;
- `job`, `exec`: executing a command files its outcome as a job in a
  bounded queue; platform jobs are polled through a `PlatformRuntime`;
- `mini_exec`: a minimal executor for platform tasks that sleep until a
  deadline or until woken, driven by a millisecond clock;
- `time`: saturating millisecond `Instant` and `Duration`, and clocks;
- `vessel`: registry and queue behind one front.

`src/` carries machine-checked proofs; every public function states its
result in its contract. Handlers and task poll functions are user code: the library
states what holds whatever they answer. `app/` holds what cannot be
verified: raw context pointers and the printing demos.
