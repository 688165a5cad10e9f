# cosmo

A COSMO solver (ADMM / operator splitting) for convex quadratic-conic programs

```text
minimize    (1/2) x' P x + q' x
subject to  A x + s = b,   s in K
```

where `K` is a product of zero, nonnegative, second-order, exponential and
3D power cones (and their duals) and boxes.

## Layout

- `src/` — the verified library (Verus). It holds everything the solver
  decides without numerical values:
  - `cones`: cone kinds and dimensions, the row layout of a product of cones
    (proved to partition the constraint rows), per-row constraint
    classification and the rule that turns the scalar rho into per-row step
    sizes;
  - `linsys`: the triplet order of the upper triangle of the KKT matrix
    `[P + sigma I, A'; A, -I/rho]` (proved upper triangular and complete) and
    the positions of the `-1/rho` diagonal entries;
  - `accelerator`: the restarted-memory bookkeeping of the Type-II Anderson
    accelerator;
  - `solver`: dimension checks, what a data update does to the
    factorisation, reset and setup plans, and the iteration schedule
    (termination checks, infeasibility checks, bounded rho adaptation);
  - `solution`, `settings`, `names`: status names, warm-start modes, and the
    cone and setting names accepted from Python.
- `app/` — the numerical solver around it: projections, Ruiz equilibration,
  the QDLDL factorisation (Clarabel), Anderson acceleration, the ADMM loop and
  the PyO3 bindings. These compute on `f64` values.
- `tests/` — tests of the verified library.
