# Thoth

Thoth splits numeric work (list averages, matrix products) into steps, hands
the steps to the nodes of a cluster in round-robin order, runs them and
gathers the answers.

- `src/` is the library, checked by Verus: the planner, the duty records, the
  translation of steps into computations, the gathering of answers, the
  counters of running steps, the event pool, the object cache, the node
  registry, message routing, file paths and log rotation. Each public
  function states what it returns in its contract; the `law_*` proof
  functions state what holds across calls.
- `tests/` runs the library on concrete values.
- `app/` is a program that serves one request on a single machine: it reads
  the request from the command line, plans it with the library, does the
  floating-point arithmetic of the steps and of the gathering, writes the
  records and logs to files, and prints the reply.

```
thoth average '[1.0, 2.0, 3.0]' [operation-id]
thoth multiply '[[1,2,3],[4,5,6]]' '[[7,8],[9,10],[11,12]]' [operation-id]
```

A request for an operation that was served before gathers its recorded
steps again instead of planning anew.
