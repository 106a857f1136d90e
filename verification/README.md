# mochi_scheduler

A small cross-platform job queue (`msc`). A background daemon runs the commands
that it is handed, captures their output, and keeps track of their state. Jobs
can reserve GPUs, wait by priority, be paused, restarted and re-run.

The library under `src/` holds the rules of the queue and everything that is
computed around it. It is written in Verus: each function states what it does in
`requires` and `ensures`, and the proofs are checked with it.

| Module | What it holds |
| --- | --- |
| `ipc::job` | a job and its states |
| `ipc::queue` | the queue as a mathematical value, and the steps it takes |
| `ipc::scheduler` | the queue itself: adding, picking, finishing, storing |
| `ipc::laws` | what every step keeps, and how the steps relate |
| `ipc::protocol` | requests, responses, and the frames that carry them |
| `ipc::daemon` | what a request does and what is answered; how a job is launched |
| `ipc::client` | commands to requests, job ids, listings, watching, tables |
| `ipc::batch` | commands that name several jobs: their requests and exit status |
| `utils::pretty_table` | framed tables that keep to a width |
| `gpu`, `settings`, `clock`, `paths`, `text`, `cli` | the host, locations, time, text, commands |

Some laws that are proved:

- No two running jobs ever hold the same GPU, and together they never hold more
  than the pool has (`ipc::laws`).
- The CPU-job limit is kept, ids are never handed out twice, not even over a
  restart, and loading gives back what was saved (`ipc::laws`).
- A request that is turned down changes nothing, and the scheduler is woken
  whenever a request makes a job runnable (`ipc::daemon`).
- A job sees the GPUs that it was assigned and no others (`ipc::daemon`).
- A command that names several jobs asks for each of them, whatever the other
  answers were, and fails exactly where one of them was an error (`ipc::batch`).
- Reading a frame gives back the message that was written (`ipc::protocol`).
- All lines of a table are equally wide, and wrapping loses no text
  (`utils::pretty_table`).

`app/` is the program around the library: arguments, sockets, files, processes
and JSON. `tests/` runs the library on concrete values.
