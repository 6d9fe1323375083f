use runtime_checker::help::{create_help_body, format_aliases, LABEL_COLUMN_WIDTH};
use runtime_checker::panel::Segment;

fn visible_text(value: &str) -> String {
    let mut output = String::new();
    let mut in_escape = false;
    for ch in value.chars() {
        if in_escape {
            if ch.is_ascii_alphabetic() {
                in_escape = false;
            }
            continue;
        }
        if ch == '\x1b' {
            in_escape = true;
            continue;
        }
        output.push(ch);
    }
    output
}

fn lines_text(lines: &[Vec<Segment>]) -> String {
    let mut out = String::new();
    for line in lines {
        for segment in line {
            match segment {
                Segment::Text(text) => out.push_str(text),
                Segment::Gradient(text, _, _) => out.push_str(text),
                Segment::Term(_) => {}
            }
        }
        out.push('\n');
    }
    visible_text(&out)
}

fn help_text() -> String {
    lines_text(&create_help_body(80, "0.1.0"))
}

#[test]
fn help_uses_barekey_style_sections() {
    let visible = help_text();

    assert!(visible.contains("─ runtime-checker  0.1.0"));
    assert!(visible.contains("Usage »"));
    assert!(visible.contains("Arguments »"));
    assert!(visible.contains("Options »"));
    assert!(visible.contains("runtime-checker <dir> [options]"));
    assert!(visible.contains("--summary, --oneline"));
    assert!(visible.contains("-h, --help"));
}

#[test]
fn no_args_prints_help() {
    let visible = help_text();

    assert!(visible.contains("Usage »"));
    assert!(visible.contains("runtime-checker <dir> [options]"));
}

#[test]
fn help_sections_come_in_order_and_list_every_option() {
    let visible = help_text();
    let usage = visible.find("Usage »").unwrap();
    let arguments = visible.find("Arguments »").unwrap();
    let options = visible.find("Options »").unwrap();
    assert!(usage < arguments && arguments < options);
    for option in ["--fast", "--runtime", "--summary, --oneline", "--inspect", "--fix", "-h, --help"] {
        assert!(visible[options..].contains(option), "missing {option}");
    }
    assert!(!visible.starts_with('\n'));
    assert!(!visible.ends_with("\n\n"));
}

#[test]
fn help_header_follows_terminal_width() {
    let narrow = create_help_body(40, "0.1.0");
    let wide = create_help_body(120, "0.1.0");
    let first = |lines: &[Vec<Segment>]| lines_text(&lines[..1]).chars().count();
    assert!(first(&narrow) < first(&wide));
}

#[test]
fn aliases_are_joined_with_commas() {
    let (segments, width) = format_aliases(&vec!["-h", "--help"]);
    assert_eq!(lines_text(&[segments]), "-h, --help\n");
    assert_eq!(width, 10);
    let (segments, width) = format_aliases(&vec![]);
    assert!(segments.is_empty());
    assert_eq!(width, 0);
    assert!(LABEL_COLUMN_WIDTH > "--summary, --oneline".len());
}
