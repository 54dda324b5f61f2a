# semiring

Equality saturation over semiring expressions (sums, products, indicators, `let` and
`sum` binders over relations), with the verified parts in `src/`:

- `text`: decimal text of integers, printed and read as `i32::from_str` reads it.
- `lang`: the expression language — its nodes, operator text, and how an operator with
  children is read into a node.
- `analysis`: the data of an e-class (free variables, constant folding) and how the data
  of merged classes combines.
- `rewrites`: the rewrite rule tables and the fresh variables used to avoid capture.
- `meaning`: the integer value of a term; it shows that the analysis's free sets and
  folded constants are right and that each rewrite rule keeps a term's value.
- `soundness`: pattern texts as printed pattern trees, and the proof that every rule
  of the tables keeps the value of the term it rewrites.
- `smt`: grouping classes by fingerprint, the pairs of classes to test, and the Rosette
  query for an equation.

`app/` runs the e-graph (the `egg` crate): it implements egg's traits by calling the
library, builds egg rewrites from the rule tables, and holds the command line.
