use ventouse::config::parse_weights;
use ventouse::engine::{DeclOrder, Weights};

#[test]
fn every_tunable_is_settable() {
    let toml = "\
[tool.ventouse.weights]
scope_level = 5
shared_callers = 6
shared_uses = 11
crowded_scope = 50
reorder_wedges = 2
narrow_levels = 3
accessor_fanin = 7
order = \"top-down\"
";
    let w = parse_weights(toml);
    assert_eq!(
        (w.scope_level, w.shared_callers, w.shared_uses, w.crowded_scope, w.reorder_wedges),
        (5, 6, 11, 50, 2)
    );
    assert_eq!((w.narrow_levels, w.accessor_fanin), (3, 7));
    assert_eq!(w.order, DeclOrder::TopDown);
}

#[test]
fn unknown_keys_and_missing_section_keep_defaults() {
    // an unknown key is ignored; keys outside the section are ignored.
    let w = parse_weights("[other]\naccessor_fanin = 99\n[tool.ventouse.weights]\nnope = 1\n");
    assert_eq!(w, Weights::default());
}
