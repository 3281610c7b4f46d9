use minigrep::lines::split_lines;
use minigrep::text::{chars_of, string_of};

fn texts(lines: Vec<Vec<char>>) -> Vec<String> {
    lines.iter().map(|line| string_of(line)).collect()
}

#[test]
fn empty_text_has_no_lines() {
    assert_eq!(split_lines(""), Vec::<Vec<char>>::new());
}

#[test]
fn text_without_line_feed_is_one_line() {
    assert_eq!(split_lines("Rust:"), vec![vec!['R', 'u', 's', 't', ':']]);
}

#[test]
fn line_feeds_separate_lines() {
    assert_eq!(texts(split_lines("a\nbc\ndef")), vec!["a", "bc", "def"]);
}

#[test]
fn final_line_feed_starts_no_further_line() {
    assert_eq!(texts(split_lines("a\nbc\n")), vec!["a", "bc"]);
    assert_eq!(texts(split_lines("\n")), vec![""]);
}

#[test]
fn empty_lines_are_lines() {
    assert_eq!(texts(split_lines("a\n\nb")), vec!["a", "", "b"]);
    assert_eq!(texts(split_lines("\n\n")), vec!["", ""]);
    assert_eq!(texts(split_lines("\na")), vec!["", "a"]);
}

#[test]
fn carriage_return_and_line_feed_end_a_line_together() {
    assert_eq!(texts(split_lines("a\r\nb\r\n")), vec!["a", "b"]);
    assert_eq!(texts(split_lines("a\nb\r\nc")), vec!["a", "b", "c"]);
    assert_eq!(texts(split_lines("\r\n")), vec![""]);
}

#[test]
fn only_one_carriage_return_is_dropped() {
    assert_eq!(texts(split_lines("a\r\r\nb")), vec!["a\r", "b"]);
}

#[test]
fn carriage_return_alone_ends_no_line() {
    assert_eq!(texts(split_lines("a\rb\nc")), vec!["a\rb", "c"]);
    assert_eq!(texts(split_lines("a\r")), vec!["a\r"]);
    assert_eq!(texts(split_lines("a\nb\r")), vec!["a", "b\r"]);
    assert_eq!(texts(split_lines("\r")), vec!["\r"]);
}

#[test]
fn split_lines_agrees_with_std_lines() {
    let samples = [
        "",
        "\n",
        "\r\n",
        "\r",
        "a",
        "a\n",
        "a\r\n",
        "a\r",
        "a\n\nb",
        "a\r\n\r\nb\r",
        "\n\na\n\n",
        "x\r\r\ny\n\rz",
        "Rust:\nsafe, fast, productive.\nPick three.\nDuct tape.",
    ];
    for sample in samples {
        let expected: Vec<String> = sample.lines().map(|line| line.to_string()).collect();
        assert_eq!(texts(split_lines(sample)), expected);
    }
}

#[test]
fn chars_of_lists_characters_not_bytes() {
    assert_eq!(chars_of(""), Vec::<char>::new());
    assert_eq!(chars_of("aß√"), vec!['a', 'ß', '√']);
    assert_eq!(chars_of("a\r\n"), vec!['a', '\r', '\n']);
}

#[test]
fn string_of_joins_characters_in_order() {
    assert_eq!(string_of(&[]), "");
    assert_eq!(string_of(&['D', 'u', 'c', 't']), "Duct");
    assert_eq!(string_of(&['a', 'ß', '√']), "aß√");
}

#[test]
fn string_of_undoes_chars_of() {
    let text = "safe, fast, productive. ÄÖÜ";
    assert_eq!(string_of(&chars_of(text)), text);
}
