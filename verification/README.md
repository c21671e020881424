# ledge

Structural core of the Ledge factor-model portfolio QP solver, verified with
Verus.

The solver itself is an ADMM method over `f64` data whose x-update uses the
Sherman-Morrison-Woodbury identity. Everything around the floating-point
arithmetic that does not depend on the number type lives in `src/` and is
verified against its contract:

- `matrix`, `constraints`, `csc`: row-major matrices with their shape
  invariant, constraint blocks and row appends, CSC assembly;
- `validation`, `settings`, `kkt`: the order of input checks and what each
  rejection names;
- `cache`, `policy`, `diagnosis`: the penalty-keyed factorization cache, the
  solve loop's cadences and warm-start policy, and convergence hints;
- `active_set`: pin bookkeeping for solution polishing;
- `step`, `groups`, `styles`, `hints`, `arguments`: rolling-step planning,
  the constraint templates of the portfolio layer, and which optional
  problem arguments go together;
- `conversion`, `report`: the variable and row layout handed to external
  solvers, and the row order of comparison reports;
- `random`, `synthetic`, `text`, `labels`: the reproducible SplitMix64
  stream, instance names, and report text.

`app/` holds the floating-point kernel (factorizations, equilibration, the
ADMM loop, polishing, certificates), the portfolio front end, batch and
benchmark drivers, and the serde wire formats; it calls the library for
every decision listed above.
