# ai-scheduler

An active-learning scheduler for machine-learned interatomic potentials: each
generation it exports a training dataset, prepares committee training (UPET or
n2p2), LAMMPS molecular dynamics and VASP single points, and drives the jobs
through Slurm.

## Layout

- `src/` — the library, verified with Verus. It holds the scheduler's
  decisions and every piece of text it reads or writes:
  - `text`, `number`: a character-sequence model of the string operations used
    (trim, split, words, lines, find, replace, decimal parsing and printing),
    each proved against its specification;
  - `template`: rendering of `{{key}}` templates and Slurm array scripts;
  - `types`, `slurm`, `watcher`, `pipeline`: job ids, job states, the parsing of
    `sbatch`/`squeue`/`sacct` output, and the runner's retry state machine;
  - `config`, `layout`, `lammps`, `vasp`, `training`, `install`: the project
    configuration, directory and file names, and the rules of each workspace
    (input selection, OUTCAR species header, memory requests, learning curves,
    selected weights).
- `app/` — the command-line program: file system, processes, Slurm commands,
  configuration parsing with `serde`/`toml`, and the floating-point parts.
- `tests/` — tests of the library on concrete inputs.
