use crabtime::braces::escape_braces;

fn esc(s: &str) -> String {
    let chars: Vec<char> = s.chars().collect();
    escape_braces(&chars).into_iter().collect()
}

// A single brace doubles, so it survives a later formatting pass as one
// literal brace.
#[test]
fn single_braces_double() {
    assert_eq!(esc("a{b}c"), "a{{b}}c");
}

// Adjacent braces from nested groups collapse back to a single brace, the
// interpolation form.
#[test]
fn double_braces_collapse() {
    assert_eq!(esc("Position{{dim}}"), "Position{dim}");
}

// The escaping round trip: escaping and then formatting reproduces each
// literal brace exactly once.
#[test]
fn escape_format_round_trip() {
    let original = "fn f() { g(); }";
    let escaped = esc(original);
    assert_eq!(escaped, "fn f() {{ g(); }}");
    let formatted = format!("fn f() {{ g(); }}");
    assert_eq!(formatted, original);
}

// A triple run keeps an interpolation point inside literal braces.
#[test]
fn triple_brace_run() {
    assert_eq!(esc("{{{name}}}"), "{{{name}}}");
}

// A quadruple run collapses to a doubled pair.
#[test]
fn quadruple_brace_run() {
    assert_eq!(esc("{{{{"), "{{");
    assert_eq!(esc("}}}}"), "}}");
}

// Text without braces passes through unchanged.
#[test]
fn no_braces_unchanged() {
    assert_eq!(esc("plain text 123"), "plain text 123");
    assert_eq!(esc(""), "");
}
