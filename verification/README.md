# ventouse

A locality linter for code: it scores how far each definition sits from what it connects to
(scope debt: `levels` and `wedges`), warns about definitions referenced out of reading order, and
names the move that fixes each case (reorder a binding, narrow it into a block, extract a shared
helper, bundle a crowd of accumulators).

The library is written in Verus: every function carries a contract, and Verus proves it.

## Layout

- `src/engine/` — the language-agnostic engine.
  - `scopelang`: the scope actions a frontend lowers its syntax into, and the driver that builds
    a module's scope graph from them. Its contract names the graph exactly: the depth-first walk
    of the nodes under the language's lowering rule (`built_graph`).
  - `scopegraph`: the scope graph, name resolution, and scoring (`levels`, `wedges`, entities,
    definition-reference edges, declare-before-use warnings), each stated as a spec function.
  - `defgraph`, `declorder`, `placement`, `wedge`: the definition graph, the reading-order
    convention, placement debt and wedge counting.
  - `analyze`: findings and suggestions for a project, sorted by file, line and entity.
- `src/lang/` — the frontends. Each lowers a syntax tree (`python`, `rust`, `ts`, `cpp`) by
  rules stated as spec functions (for instance `py_stmt_rule`, `ts_expr_rule`), and runs the
  pipeline from tree to findings with an exact contract. Rust and TypeScript source text is parsed
  here too, by `syn` and `oxc` (`rust::parse`, `ts::parse`); the contracts from text speak of
  the parser's result by name (`rust_parse`, `ts_parse`).
- `src/render/` — the text and JSON reports, the per-file rollup and the rankings.
- `src/cli.rs`, `src/config.rs`, `src/discover.rs` — argument parsing, the weights table of
  `pyproject.toml`, and which discovered files each language takes.
- `src/lang/cpp/compdb.rs` also reads a `compile_commands.json` text (parsed by `serde_json`)
  into its entries and their flags (`flags_from_json`).
- `app/` — the program around the library: parsing with `libclang` and the Python parser,
  walking directories, reading files, printing.
- `tests/` — tests on concrete values, among them the library's laws (`tests/laws.rs`).

## Laws proved in `src/`

- The reading convention (`--order`) moves only the declare-order warnings, in each module
  (`law_order_only_moves_declare_order`) and in the sorted project output
  (`law_convention_changes_only_declare_order`).
- The two conventions never both report the same reference (`law_conventions_never_both_report`).
- The per-file rollup adds up to the headline total (`law_file_rollup_sums_to_total`).
- Only values carry scope debt (`law_only_values_carry_debt`).
- A name bound twice keeps its first binding (`law_first_binding_kept`); over any number of
  binds, the kind of the first and the declaration of the earliest (`law_first_binding_rule`).
- Every scope-debt record carries levels or wedges, its reorder wedges are among its wedges, and
  it is named `owner.name` (`law_debt_records_well_formed`).
- A project's findings are the per-module findings, sorted (`law_project_is_sorted_union_of_modules`).
- Multiplying the scope-debt weight by `k` multiplies every scope-debt score by `k`
  (`law_scope_debt_scales_with_weight`).
- Sorting findings keeps every finding and orders them (`lemma_stable_sorted_is_sorted`,
  `lemma_stable_sorted_is_permutation`).
