# tubular

An interpreter library for Tubular, a two-dimensional esoteric language in
which droplets carrying arbitrary precision integers flow through a grid of
pipes and operators, with its behaviour stated in Verus contracts and proved.

- `src/types`: coordinates, directions, integers and errors.
- `src/interpreter`: the grid, droplets, stack, reservoir, call stack,
  collisions, the paths a droplet can take, and the tick-by-tick execution
  model.
- `src/operations`: what each symbol does.
- `src/parser`: reading program text into a grid, and validating grids.
- `src/cli`: settings, trace events and the text of reports.
- `app/`: the `tubular` command (files, standard input and output, the clock,
  environment variables and benchmarks).
