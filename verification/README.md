# limiter

Shares one NPU between containers: each container gets a share of the device's
time and a limit on its memory.

Every container runs a manager. Managers take turns on the device through a
registry in shared memory; a manager that has its turn hands out tokens to the
worker processes of its container, which spend one for every kernel they launch,
and collects how long the batch took. Workers account for device memory in a
second segment, against the container's limit.

## Layout

- `src/` is the library. It holds every decision and is verified with Verus.
  - `access`: atomic accesses to words, and what they leave behind.
  - `shmem`: the two segments, viewed as maps from cells to words.
  - `worker`: registration, memory accounting, quota checks, tokens.
  - `manager`: the registry's slots, turns, the queue, plans, batches, rests.
  - `hook`, `dsmi`: what stands in front of the runtime and of device queries.
  - `config`, `liveness`: settings and process states, read from text.
- `tests/` runs the library on concrete segments.
- `app/` is the program around it: shared memory, clocks, futexes, the runtime,
  and the fractions that plans are made with.

## How it works

An operation on shared memory is a small machine. `step` names the next action,
such as one atomic access, and `advance` takes the reply. The program performs
the actions; what other processes do in between shows only in the replies, so
what is proved for all replies holds under any interference. Functions that take
a whole segment run the same machines to their end and state what the segment
holds afterwards.

Proof functions named `law_...` state what holds of the library as a whole: that
a reservation never exceeds the limit, that memory which is allocated and
released leaves no trace, that what a client which ends leaves is reclaimed, that
no token is made or lost, that every active manager in the queue gets its turn,
that workers see a batch open and close in order.
