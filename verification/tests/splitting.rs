use deploy_helper::text::{chars_of, contains_chars, is_space, same_text, CharClass};
use deploy_helper::utils::split_commands;

fn strings(items: &[&str]) -> Vec<String> {
    items.iter().map(|s| s.to_string()).collect()
}

#[test]
fn one_command_per_line() {
    assert_eq!(split_commands("echo a\necho b"), strings(&["echo a", "echo b"]));
}

#[test]
fn a_single_line_is_a_single_command() {
    assert_eq!(split_commands("echo hello"), strings(&["echo hello"]));
}

#[test]
fn empty_text_holds_no_command() {
    assert_eq!(split_commands(""), Vec::<String>::new());
    assert_eq!(split_commands("\n\n  \n"), Vec::<String>::new());
}

#[test]
fn blank_lines_are_passed_over() {
    assert_eq!(split_commands("\n  echo a  \n\n\t\necho b\n"), strings(&["echo a", "echo b"]));
}

#[test]
fn lines_are_trimmed() {
    assert_eq!(split_commands("   ls -l \t"), strings(&["ls -l"]));
    assert_eq!(split_commands("ls\r\npwd\r\n"), strings(&["ls", "pwd"]));
}

#[test]
fn a_backslash_continues_the_line() {
    assert_eq!(
        split_commands("docker run \\\n  --rm \\\n  image\necho done"),
        strings(&["docker run --rm image", "echo done"])
    );
}

#[test]
fn continued_lines_join_with_single_spaces() {
    let pieces = ["tar", "-c", "-f out.tar", "dir"];
    let text = pieces.join(" \\\n");
    assert_eq!(split_commands(&text), vec![pieces.join(" ")]);
    let tight = pieces.join("\\\n");
    assert_eq!(split_commands(&tight), vec![pieces.join(" ")]);
    let wide = pieces.join(" \t \\\n");
    assert_eq!(split_commands(&wide), vec![pieces.join(" ")]);
}

#[test]
fn every_trailing_backslash_goes() {
    assert_eq!(split_commands("a \\\\\\\nb"), strings(&["a b"]));
}

#[test]
fn a_continuation_at_the_end_keeps_its_space() {
    assert_eq!(split_commands("a \\"), strings(&["a "]));
    assert_eq!(split_commands("\\"), strings(&[" "]));
}

#[test]
fn a_blank_line_does_not_close_a_continuation() {
    assert_eq!(split_commands("a \\\n\nb"), strings(&["a b"]));
}

#[test]
fn a_backslash_inside_a_line_stays() {
    assert_eq!(split_commands("echo a\\b c"), strings(&["echo a\\b c"]));
}

#[test]
fn white_space_is_what_the_standard_library_calls_so() {
    let mut code: u32 = 0;
    while code <= 0x10FFFF {
        if let Some(c) = char::from_u32(code) {
            assert_eq!(is_space(c), c.is_whitespace(), "U+{:04X}", code);
        }
        code += 1;
    }
}

#[test]
fn character_classes() {
    assert!(CharClass::Space.holds('\u{3000}'));
    assert!(!CharClass::Space.holds('x'));
    assert!(CharClass::Only('=').holds('='));
    assert!(!CharClass::Only('=').holds('-'));
    assert!(CharClass::Except(',').holds('a'));
    assert!(!CharClass::Except(',').holds(','));
}

#[test]
fn characters_and_search() {
    assert_eq!(chars_of("aé\u{1F600}"), vec!['a', 'é', '\u{1F600}']);
    let hay = chars_of("{{ x | from_json }}");
    assert!(contains_chars(&hay, &chars_of("from_json")));
    assert!(contains_chars(&hay, &chars_of("")));
    assert!(contains_chars(&hay, &chars_of("}}")));
    assert!(!contains_chars(&hay, &chars_of("from_jsonx")));
    assert!(!contains_chars(&chars_of("ab"), &chars_of("abc")));
    assert!(same_text("false", "false"));
    assert!(!same_text("false", "False"));
    assert!(!same_text("false", "false "));
}
