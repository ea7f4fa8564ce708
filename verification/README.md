# nod-runtime

The runtime of a Dylan implementation as a verified library: tagged words, the
class table and its pinned ids, generic dispatch with call-site caches and
next-method chains, conditions and handlers with non-local exits, collections
and their iteration protocol, closures, functions, bit vectors, safepoints,
start-up of compiled programs, crash reports, and the shims for the windowing
and graphics libraries of the operating system.

State that a process has once is a value here: the class table, the heap, the
generics, the handler stack and so on are passed to the functions that use
them. Addresses of code are numbers. A function that has to run code answers
what to run, and the caller hands back how it ended; a call of the operating
system is handed in as a function.

- `src/` is the library. Every function states its behaviour in its contract,
  and public proof functions state what holds across functions.
- `tests/` exercises the library on concrete values.
- `app/` holds the exported entry points: process-wide state, calls through code
  addresses, unwinding, files, and the operating system.
