use better_term::input::{confirm_from, confirm_prompt, parse_confirmation, strip_line_ending};

fn responses(lines: &[&str]) -> Vec<String> {
    lines.iter().map(|line| String::from(*line)).collect()
}

#[test]
fn line_loses_its_ending() {
    assert_eq!(strip_line_ending("hello\n"), "hello");
    assert_eq!(strip_line_ending("hello\r\n"), "hello");
    assert_eq!(strip_line_ending("hello"), "hello");
    assert_eq!(strip_line_ending("hello\r"), "hello");
    assert_eq!(strip_line_ending("hello\n\r\n\n"), "hello");
}

#[test]
fn line_of_endings_alone_becomes_empty() {
    assert_eq!(strip_line_ending(""), "");
    assert_eq!(strip_line_ending("\n"), "");
    assert_eq!(strip_line_ending("\r\n"), "");
}

#[test]
fn line_keeps_what_stands_before_its_ending() {
    assert_eq!(strip_line_ending("a\rb\n"), "a\rb");
    assert_eq!(strip_line_ending("a\nb"), "a\nb");
    assert_eq!(strip_line_ending("  spaced  \n"), "  spaced  ");
    assert_eq!(strip_line_ending("\nab\n"), "\nab");
    assert_eq!(strip_line_ending("héllo\n"), "héllo");
}

#[test]
fn confirmation_prompt_names_the_two_answers() {
    assert_eq!(confirm_prompt("Continue?"), "Continue? (Y or N): ");
    assert_eq!(confirm_prompt(""), " (Y or N): ");
}

#[test]
fn yes_in_any_case() {
    for response in ["y", "Y", "yes", "YES", "Yes", "yEs", "yeS"] {
        assert_eq!(parse_confirmation(response), Some(true));
    }
}

#[test]
fn no_in_any_case() {
    for response in ["n", "N", "no", "NO", "No", "nO"] {
        assert_eq!(parse_confirmation(response), Some(false));
    }
}

#[test]
fn anything_else_is_no_answer() {
    for response in [
        "", "maybe", "yess", "ye", "ys", "on", "nn", "yy", "y ", " y", "yes\n", "nope", "0", "1",
        "true", "oui", "ÿ", "y\u{301}", "9", "Y\0", "N0", "YE5", "\u{19}", "Yé", "nö",
    ] {
        assert_eq!(parse_confirmation(response), None);
    }
}

#[test]
fn characters_next_to_the_letters_are_no_answer() {
    assert_eq!(parse_confirmation("Y"), Some(true));
    assert_eq!(parse_confirmation("9"), None);
    assert_eq!(parse_confirmation("Z"), None);
    assert_eq!(parse_confirmation("X"), None);
    assert_eq!(parse_confirmation(".O"), None);
    assert_eq!(parse_confirmation("N/"), None);
    assert_eq!(parse_confirmation("9ES"), None);
    assert_eq!(parse_confirmation("Y%S"), None);
    assert_eq!(parse_confirmation("YE3"), None);
}

#[test]
fn confirm_asks_again_until_it_is_answered() {
    assert_eq!(confirm_from(&responses(&["maybe", "y"])), Some(true));
    assert_eq!(confirm_from(&responses(&["maybe", "no"])), Some(false));
    assert_eq!(confirm_from(&responses(&["maybe"])), None);
    assert_eq!(confirm_from(&responses(&["", "what", "YES", "n"])), Some(true));
}

#[test]
fn confirm_takes_the_first_answer() {
    assert_eq!(confirm_from(&responses(&["y"])), Some(true));
    assert_eq!(confirm_from(&responses(&["no"])), Some(false));
    assert_eq!(confirm_from(&responses(&["n", "y"])), Some(false));
    assert_eq!(confirm_from(&responses(&["Y", "n"])), Some(true));
}

#[test]
fn confirm_without_responses_has_no_answer() {
    assert_eq!(confirm_from(&responses(&[])), None);
    assert_eq!(confirm_from(&responses(&["", "", ""])), None);
}

#[test]
fn enter_alone_is_no_answer() {
    assert_eq!(parse_confirmation(&strip_line_ending("\n")), None);
    assert_eq!(confirm_from(&responses(&["", "n"])), Some(false));
}

fn answer_by_the_standard_library(response: &str) -> Option<bool> {
    match response.to_ascii_lowercase().as_str() {
        "y" | "yes" => Some(true),
        "n" | "no" => Some(false),
        _ => None,
    }
}

#[test]
fn answers_are_read_as_the_standard_library_lowers_them() {
    let letters = ['y', 'Y', 'e', 'E', 's', 'S', 'n', 'N', 'o', 'O', 'x', '9', ' ', 'é', '\u{19}', 'Z'];
    for a in letters {
        let one = String::from(a);
        assert_eq!(parse_confirmation(&one), answer_by_the_standard_library(&one));
        for b in letters {
            let two = format!("{}{}", a, b);
            assert_eq!(parse_confirmation(&two), answer_by_the_standard_library(&two));
            for c in letters {
                let three = format!("{}{}{}", a, b, c);
                assert_eq!(parse_confirmation(&three), answer_by_the_standard_library(&three));
                let four = format!("{}{}{}{}", a, b, c, a);
                assert_eq!(parse_confirmation(&four), None);
            }
        }
    }
}

#[test]
fn line_ending_is_what_trimming_the_end_removes() {
    let lines = ["", "a", "a\n", "a\r\n", "\r\na\r\n\r\n", "a b \n", "\n\n", "a\rb\r", "é\n"];
    for line in lines {
        assert_eq!(strip_line_ending(line), line.trim_end_matches(['\n', '\r']));
    }
}
