# Lop

Lop cleans up stale Git worktrees, conservatively: a linked worktree goes only when its upstream
has disappeared, Worktrunk has proved that its branch is integrated, and nobody is using it.

`lop scan` reports what would be done. `lop prune` does the same and remains a dry run unless
`--yes` is present. `lop schedule` manages an optional macOS LaunchAgent.

## Layout

- `src/` is the library. Every item of it is verified with Verus.
- `app/` is the command: it carries out what the library asks for (commands, files, locks, output)
  and hands back what came of it.
- `tests/` runs the library in worlds that are made up.

## How the library works

Nothing in the library touches the outside. Work that has to know something about its surroundings
is a function of the replies that it has had so far: it either asks for one more (`Step::Ask`, with
a `Request`), or it is done. A whole run (`run`), a search for repositories (`discovery`) and a
scheduling command (`schedule`) are machines with `request` and `advance`.

Contracts speak of flows, which are the same functions over sequences, maps and plain values, and of
spec functions on those. What holds across functions is proved in public proof functions whose names
begin with `law_`; the larger modules keep theirs in a `laws` module of their own. Among them:

- a dry run never asks for a removal or for the closing of a workspace, and neither its records nor
  its totals tell of a removal;
- a removal is asked for only where removals are applied, for a worktree whose integration was
  proved, right after a quiet look at Herdr and a full recheck of the worktree;
- a failed fetch or a failed proof leaves every worktree of its repository alone, and only its own;
- repositories are found below configured roots only, each once, in the order of their paths,
  whatever the order of the roots; a deeper search finds no less;
- where every read succeeds, a search finds exactly the directories with a `.git` that Git resolves,
  down to its depth, past no ignored name and no symbolic link;
- every workspace of a candidate is tried once, in order, and every complaint is told;
- a decision is reported as changed exactly when it is new or different from the last one;
- a change to a schedule is carried out as a whole, or undone to what was there before; on a machine
  that does what it is asked to do, installing and uninstalling succeed, also when repeated.

| Module | Contents |
| --- | --- |
| `text`, `filepath`, `textmap` | texts, paths as bytes, maps from texts |
| `command`, `flow` | requests, replies, and work that goes in steps |
| `cli`, `paths`, `config`, `lock`, `state`, `output` | what surrounds a run |
| `discovery` | the search for repositories |
| `inspection`, `integration` | the state of worktrees, and proofs that branches are integrated |
| `cleanup` | the recheck before a removal, and the removal |
| `herdr` | coordination with Herdr |
| `decision`, `run` | decisions on worktrees, and whole runs |
| `launch_agent`, `schedule` | the LaunchAgent, and the commands that manage it |

What is believed without proof is small: a few conversions of `std` in `text`, and the reading of
one number from a JSON document in `state`.
