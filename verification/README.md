# syscall_fuzz

Tools that trace the system calls of a program running in an SGX container
with bpftrace and judge, with `ent`, whether the data it reads and writes is
encrypted.

- `src/` is the verified library: reading the JSON trace lines, following
  each file descriptor from `open` to `close`, deciding which buffer goes to
  which file and which file is analysed, naming output files, building the
  docker and bpftrace command lines, and the arguments of the hand-made
  system calls. Every public function states its result in `ensures`; the
  `law_*` proof functions state what holds across calls.
- `app/` runs it: the command line, the processes, the files, `ent`, the
  float comparisons of its values, the charts, and the generator programs
  that make raw system calls inside the containers.
- `tests/` checks the library on concrete traces.
