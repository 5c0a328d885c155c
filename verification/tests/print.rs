use roto::tools::print::{highlight, BLUE, GRAY, GREEN, ITALIC, PURPLE, RED, RESET, WHITE};

fn without_ansi(mut text: String) -> String {
    for code in [RED, GREEN, BLUE, PURPLE, WHITE, GRAY, ITALIC, RESET] {
        text = text.replace(code, "");
    }
    text
}

#[test]
fn highlights_complete_f_string_token_stream() {
    let source = "print(f\"Hello {name}!\");\n";
    let highlighted = highlight(source);

    assert_eq!(without_ansi(highlighted.clone()), source);
    assert!(highlighted.contains(&format!("{}Hello {}", GREEN, RESET)));
    assert!(highlighted.contains(&format!("{}!\"{}", GREEN, RESET)));
}

#[test]
fn invalid_tokens_are_highlighted_without_panicking() {
    let source = "☃ ok\n";
    let highlighted = highlight(source);

    assert_eq!(without_ansi(highlighted.clone()), source);
    assert!(highlighted.contains(&format!("{}☃{}", RED, RESET)));
}

#[test]
fn tokens_get_the_colors_of_their_kinds() {
    let highlighted = highlight("fn f() { 42 } // done");
    assert_eq!(
        highlighted,
        format!(
            "{BLUE}fn{RESET}{GRAY}{ITALIC} {RESET}{WHITE}f{RESET}{GRAY}({RESET}{GRAY}){RESET}{GRAY}{ITALIC} {RESET}{GRAY}{{{RESET}{GRAY}{ITALIC} {RESET}{PURPLE}42{RESET}{GRAY}{ITALIC} {RESET}{GRAY}}}{RESET}{GRAY}{ITALIC} // done{RESET}"
        )
    );
    assert_eq!(highlight(""), "");
}

#[test]
fn highlighting_keeps_every_byte_of_the_code() {
    for source in [
        "f\"a{ {1} }b\" /* c /* d */ */ r#\"x\"# 10.0.0.1 AS3",
        "let x = f\"{f\"in{1}\"}\"; // tail",
        "f\"never closed {x",
        "\"open string",
    ] {
        assert_eq!(without_ansi(highlight(source)), source);
    }
}
