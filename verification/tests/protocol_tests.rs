use crabtime::protocol::parse_output;

// Protocol fidelity: one line of each kind decodes into exactly one piece
// of generated code, one warning, one error, and one echoed line.
#[test]
fn protocol_parser_fidelity() {
    let stdout = "[OUTPUT] enum A {}\n[WARNING] too big\n[ERROR] bad thing\nplain note\n";
    let parsed = parse_output(stdout);
    assert_eq!(parsed.code, " enum A {}\n");
    assert_eq!(parsed.warnings, vec![" too big".to_string()]);
    assert_eq!(parsed.errors, vec![" bad thing".to_string()]);
    assert_eq!(parsed.echoed, vec!["plain note".to_string()]);
}

// Lines are trimmed before the marker check, so indented markers still
// count; the echoed line keeps its original text.
#[test]
fn markers_after_whitespace() {
    let parsed = parse_output("   [OUTPUT] x\n  indented note\n");
    assert_eq!(parsed.code, " x\n");
    assert_eq!(parsed.echoed, vec!["  indented note".to_string()]);
}

// Blank lines decode to nothing at all.
#[test]
fn blank_lines_dropped() {
    let parsed = parse_output("\n   \n");
    assert_eq!(parsed.code, "");
    assert!(parsed.warnings.is_empty());
    assert!(parsed.errors.is_empty());
    assert!(parsed.echoed.is_empty());
}

// The order of generated lines is preserved.
#[test]
fn output_order_preserved() {
    let parsed = parse_output("[OUTPUT] one\nnote\n[OUTPUT] two\n");
    assert_eq!(parsed.code, " one\n two\n");
    assert_eq!(parsed.echoed, vec!["note".to_string()]);
}

// Empty input decodes to nothing.
#[test]
fn empty_input() {
    let parsed = parse_output("");
    assert_eq!(parsed.code, "");
    assert!(parsed.warnings.is_empty());
}
