use dotfile::{read_names, render_names, split_words};

#[test]
fn tests_it_works() {
    let text = "ONE\nTWO\n\nTHREE\nFOUR\n";
    let mut names = read_names(text);
    names.sort();
    let mut expected = vec!["ONE", "TWO", "THREE", "FOUR"];
    expected.sort();
    assert_eq!(names, expected);
}

#[test]
fn read_names_skips_blank_lines_and_duplicates() {
    assert_eq!(read_names("a\r\nb\n\na\nc"), vec!["a", "b", "c"]);
    assert_eq!(read_names(""), Vec::<String>::new());
    assert_eq!(read_names("\n\n"), Vec::<String>::new());
    assert_eq!(read_names("Nano\nnano\n"), vec!["Nano", "nano"]);
}

#[test]
fn split_words_on_any_white_space() {
    assert_eq!(split_words("  a\tb\nc \u{3000}d  "), vec!["a", "b", "c", "d"]);
    assert_eq!(split_words(""), Vec::<String>::new());
    assert_eq!(split_words(" \n\t "), Vec::<String>::new());
    assert_eq!(split_words("single"), vec!["single"]);
}

#[test]
fn render_then_read_round_trip() {
    let names: Vec<String> = vec!["zsh".into(), "git".into(), "trash-cli".into()];
    let text = render_names(&names);
    assert_eq!(text, "zsh\ngit\ntrash-cli\n");
    assert_eq!(read_names(&text), names);
    assert_eq!(render_names(&Vec::new()), "");
}
