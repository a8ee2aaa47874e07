//! The command line (argument reading, language choice, exit status), file discovery over the
//! paths a walk found, and the line index.

use ventouse::cli::{Lang, fails, parse_args, pick_lang, usage};
use ventouse::discover::{cpp_files, is_skipped_dir_name, python_files, rust_files, ts_files};
use ventouse::engine::{Category, DeclOrder, EntityKind, Finding, Reason, Severity};
use ventouse::lang::LineIndex;
use ventouse::render::{By, Format, Report};

fn argv(a: &[&str]) -> Vec<String> {
    a.iter().map(|s| s.to_string()).collect()
}

fn strs(a: &[&str]) -> Vec<String> {
    a.iter().map(|s| s.to_string()).collect()
}

#[test]
fn defaults_are_summary_text_bottom_up_here() {
    let a = parse_args(&argv(&[])).unwrap();
    assert_eq!(a.path, ".");
    assert!(a.report == Report::Summary);
    assert!(a.format == Format::Text);
    assert!(!a.error_exit);
    assert!(a.lang.is_none());
    assert!(a.order == DeclOrder::BottomUp);
}

#[test]
fn flags_and_path_are_read() {
    let a = parse_args(&argv(&["src", "--lang=js", "--order=top-down", "--format=json", "--all", "--error"])).unwrap();
    assert_eq!(a.path, "src");
    assert!(a.lang == Some(Lang::Ts));
    assert!(a.order == DeclOrder::TopDown);
    assert!(a.format == Format::Json);
    assert!(a.report == Report::All);
    assert!(a.error_exit);
}

#[test]
fn top_with_by_makes_a_ranking() {
    let a = parse_args(&argv(&["--by=class", "--top=3"])).unwrap();
    assert!(a.report == Report::Top { n: 3, by: By::Class });
    let b = parse_args(&argv(&["--top=5"])).unwrap();
    assert!(b.report == Report::Top { n: 5, by: By::Function });
}

#[test]
fn refused_arguments_explain_themselves() {
    let e = match parse_args(&argv(&["--top=x"])) {
        Err(e) => e,
        Ok(_) => panic!("--top=x must be refused"),
    };
    assert_eq!(e, format!("--top= needs a number\n{}", usage()));
    let e = match parse_args(&argv(&["--by=module"])) {
        Err(e) => e,
        Ok(_) => panic!("--by=module must be refused"),
    };
    assert_eq!(e, format!("unknown --by=module\n{}", usage()));
    let e = match parse_args(&argv(&["--nope"])) {
        Err(e) => e,
        Ok(_) => panic!("--nope must be refused"),
    };
    assert_eq!(e, format!("unknown flag: --nope\n{}", usage()));
    let e = match parse_args(&argv(&["-h"])) {
        Err(e) => e,
        Ok(_) => panic!("-h prints the usage"),
    };
    assert_eq!(e, usage());
}

#[test]
fn most_files_wins_later_language_on_ties() {
    assert!(pick_lang(0, 0, 0, 0) == Lang::Python);
    assert!(pick_lang(3, 5, 1, 0) == Lang::Rust);
    assert!(pick_lang(4, 4, 0, 0) == Lang::Rust);
    assert!(pick_lang(1, 0, 0, 9) == Lang::Ts);
    assert!(pick_lang(2, 0, 2, 1) == Lang::Cpp);
}

fn parse_error(file: &str) -> Finding {
    Finding {
        file: file.to_string(),
        line: 1,
        entity: "<module>".to_string(),
        entity_kind: EntityKind::Module,
        category: Category::ParseError,
        severity: Severity::Error,
        score: 0,
        reason: Reason::ParseError("bad".to_string()),
    }
}

#[test]
fn error_flag_fails_only_on_parse_errors() {
    let fs = vec![parse_error("a.py")];
    assert!(fails(&fs, true));
    assert!(!fails(&fs, false));
    assert!(!fails(&[], true));
}

#[test]
fn discovery_picks_each_languages_sources() {
    let found = strs(&["b.py", "a.py", "x.rs", "m.cpp", "m.h", "t.ts", "t.d.ts", "App.tsx", "notes.txt", "a.py"]);
    assert_eq!(python_files(&found), strs(&["a.py", "a.py", "b.py"]));
    assert_eq!(rust_files(&found), strs(&["x.rs"]));
    assert_eq!(cpp_files(&found), strs(&["m.cpp", "m.h"]));
    assert_eq!(ts_files(&found), strs(&["App.tsx", "t.ts"]));
}

#[test]
fn skipped_directories() {
    for d in ["venv", ".venv", "__pycache__", "site-packages", "node_modules", ".git", "target", ".mypy_cache"] {
        assert!(is_skipped_dir_name(d), "{d}");
    }
    assert!(!is_skipped_dir_name("src"));
}

#[test]
fn line_index_rows() {
    let idx = LineIndex::new("ab\ncd\n\nx");
    assert_eq!(idx.row(0), 1);
    assert_eq!(idx.row(2), 1);
    assert_eq!(idx.row(3), 2);
    assert_eq!(idx.row(6), 3);
    assert_eq!(idx.row(7), 4);
    assert_eq!(idx.row(100), 4);
}
