use revset_contained_in::contained_in::{ContainedInWalk, DebugRevsetContainedInArgs};
use revset_contained_in::render::render_line;
use revset_contained_in::syntax::{might_be_revset, ExprKind, ExprNode};
use revset_contained_in::walk::{walk_steps, Glyph};

const BOLD: &str = "\x1b[1m";
const DIM: &str = "\x1b[2m";
const RESET: &str = "\x1b[0m";

fn node(text: &str, kind: ExprKind) -> ExprNode {
    ExprNode { text: text.to_string(), kind }
}

fn ident(name: &str) -> ExprNode {
    node(name, ExprKind::Identifier(name.to_string()))
}

fn texts(root: &ExprNode) -> Vec<String> {
    walk_steps(root).into_iter().map(|s| s.text).collect()
}

fn expected(total: &str, delta: &str, contained: bool, indent: &str, text: &str) -> String {
    let (color, flag) = if contained { (BOLD, "true ") } else { (DIM, "false") };
    format!("{total}ms (+{delta}ms) {color}{flag}{DIM} {indent}{RESET}{color}{text}{RESET}")
}

fn record_all(root: &ExprNode, results: &[(u64, bool)]) -> Vec<String> {
    let mut walk = ContainedInWalk::new(root);
    let mut lines = Vec::new();
    for &(ns, contained) in results {
        assert!(walk.next_step().is_some());
        lines.push(walk.record(ns, contained));
    }
    assert!(walk.is_finished());
    assert!(walk.next_step().is_none());
    lines
}

#[test]
fn union_of_linear_commits_against_head() {
    // Commits A (root) -> B -> C, target {C}: the union meets it, B does not, C does.
    let root = node("B | C", ExprKind::UnionAll(vec![ident("B"), ident("C")]));
    let lines = record_all(&root, &[(1_500_000, true), (3_200_000, false), (3_300_000, true)]);
    assert_eq!(
        lines,
        vec![
            expected("    1", "   1", true, "", "B | C"),
            expected("    3", "   1", false, "\u{251c}\u{2500}", "B"),
            expected("    3", "   0", true, "\u{2514}\u{2500}", "C"),
        ]
    );
}

#[test]
fn pattern_argument_gets_no_line() {
    let pattern = node("\"foo\"", ExprKind::Pattern("foo".to_string()));
    let root = node("description(\"foo\")", ExprKind::FunctionCall("description".to_string(), vec![pattern]));
    let steps = walk_steps(&root);
    assert_eq!(steps.len(), 1);
    assert_eq!(steps[0].text, "description(\"foo\")");
    assert!(steps[0].indent.is_empty());
    assert!(steps[0].path.is_empty());
}

#[test]
fn string_argument_is_skipped_between_revsets() {
    let args = vec![
        ident("x"),
        node("\"s\"", ExprKind::String("s".to_string())),
        ident("y"),
        node("\"t\"", ExprKind::String("t".to_string())),
    ];
    let root = node("f(x, \"s\", y, \"t\")", ExprKind::FunctionCall("f".to_string(), args));
    let steps = walk_steps(&root);
    assert_eq!(steps.len(), 3);
    assert_eq!(steps[1].text, "x");
    assert_eq!(steps[1].path, vec![0]);
    assert_eq!(steps[1].indent, vec![Glyph::Branch]);
    assert_eq!(steps[2].text, "y");
    assert_eq!(steps[2].path, vec![2]);
    assert_eq!(steps[2].indent, vec![Glyph::LastBranch]);
}

#[test]
fn alias_body_is_walked_once() {
    let body = node(
        "mine",
        ExprKind::FunctionCall("author".to_string(), vec![node("mine", ExprKind::Identifier("me".to_string()))]),
    );
    let root = node("mine", ExprKind::AliasExpanded("mine".to_string(), Box::new(body)));
    let steps = walk_steps(&root);
    assert_eq!(steps.len(), 3);
    assert_eq!(steps[0].indent, vec![]);
    assert_eq!(steps[1].indent, vec![Glyph::LastBranch]);
    assert_eq!(steps[1].path, vec![0]);
    assert_eq!(steps[2].indent, vec![Glyph::Blank, Glyph::LastBranch]);
    assert_eq!(steps[2].path, vec![0, 0]);
}

#[test]
fn alias_to_string_is_not_descended() {
    let body = node("greeting", ExprKind::String("hello".to_string()));
    let root = node("greeting", ExprKind::AliasExpanded("greeting".to_string(), Box::new(body)));
    assert_eq!(texts(&root), vec!["greeting".to_string()]);
}

#[test]
fn operand_of_ancestors_is_evaluated_on_its_own() {
    // The operand's result is recorded as given, not derived from the operator's.
    let root = node("::C", ExprKind::Unary(Box::new(ident("C"))));
    let lines = record_all(&root, &[(0, false), (0, true)]);
    assert_eq!(
        lines,
        vec![
            expected("    0", "   0", false, "", "::C"),
            expected("    0", "   0", true, "\u{2514}\u{2500}", "C"),
        ]
    );
}

#[test]
fn empty_function_result_is_not_contained() {
    let root = node("none()", ExprKind::FunctionCall("none".to_string(), vec![]));
    let lines = record_all(&root, &[(250_000, false)]);
    assert_eq!(lines, vec![expected("    0", "   0", false, "", "none()")]);
}

#[test]
fn nested_indentation_continues_bars() {
    let union = node("A | B", ExprKind::UnionAll(vec![ident("A"), ident("B")]));
    let root = node("(A | B) & C", ExprKind::Binary(Box::new(union), Box::new(ident("C"))));
    let steps = walk_steps(&root);
    let drawn: Vec<(String, Vec<Glyph>, Vec<usize>)> =
        steps.into_iter().map(|s| (s.text, s.indent, s.path)).collect();
    assert_eq!(
        drawn,
        vec![
            ("(A | B) & C".to_string(), vec![], vec![]),
            ("A | B".to_string(), vec![Glyph::Branch], vec![0]),
            ("A".to_string(), vec![Glyph::Bar, Glyph::Branch], vec![0, 0]),
            ("B".to_string(), vec![Glyph::Bar, Glyph::LastBranch], vec![0, 1]),
            ("C".to_string(), vec![Glyph::LastBranch], vec![1]),
        ]
    );
}

#[test]
fn under_last_child_indentation_is_blank() {
    let inner = node("x..y", ExprKind::Binary(Box::new(ident("x")), Box::new(ident("y"))));
    let root = node("~(x..y)", ExprKind::Unary(Box::new(inner)));
    let steps = walk_steps(&root);
    assert_eq!(steps[2].indent, vec![Glyph::Blank, Glyph::Branch]);
    assert_eq!(steps[3].indent, vec![Glyph::Blank, Glyph::LastBranch]);
}

#[test]
fn terminals_have_no_children() {
    for kind in [
        ExprKind::AtCurrentWorkspace,
        ExprKind::AtWorkspace("ws".to_string()),
        ExprKind::RemoteSymbol("main@origin".to_string()),
        ExprKind::DagRangeAll,
        ExprKind::RangeAll,
    ] {
        assert_eq!(walk_steps(&node("t", kind)).len(), 1);
    }
}

#[test]
fn literals_are_not_revsets() {
    assert!(!might_be_revset(&ExprKind::String("a".to_string())));
    assert!(!might_be_revset(&ExprKind::Pattern("a".to_string())));
    assert!(might_be_revset(&ExprKind::Identifier("a".to_string())));
    assert!(might_be_revset(&ExprKind::RangeAll));
}

#[test]
fn wide_numbers_are_not_cut() {
    let line = render_line(123_456, 12_345, true, &vec![Glyph::Bar, Glyph::Blank], "x");
    assert_eq!(line, expected("123456", "12345", true, "\u{2502}   ", "x"));
}

#[test]
fn clock_going_back_counts_as_no_time() {
    let root = node("a | b", ExprKind::UnionAll(vec![ident("a"), ident("b")]));
    let lines = record_all(&root, &[(9_000_000, true), (2_000_000, true), (4_999_999, false)]);
    assert_eq!(lines[1], expected("    2", "   0", true, "\u{251c}\u{2500}", "a"));
    assert_eq!(lines[2], expected("    4", "   2", false, "\u{2514}\u{2500}", "b"));
}

#[test]
fn arguments_keep_what_was_written() {
    let args = DebugRevsetContainedInArgs::new("@-".to_string(), "mine() & ::@".to_string());
    assert_eq!(args.target(), "@-");
    assert_eq!(args.expression(), "mine() & ::@");
}
