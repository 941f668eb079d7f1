use battery_indicator::command::command_line;

fn words(tokens: &[&str]) -> Vec<String> {
    tokens.iter().map(|t| t.to_string()).collect()
}

#[test]
fn joins_words_with_single_spaces() {
    assert_eq!(command_line(&words(&["notify-send", "battery", "low"])), "notify-send battery low");
}

#[test]
fn single_word_is_left_as_it_is() {
    assert_eq!(command_line(&words(&["poweroff"])), "poweroff");
}

#[test]
fn no_words_give_an_empty_line() {
    assert_eq!(command_line(&words(&[])), "");
}

#[test]
fn words_are_neither_trimmed_nor_quoted() {
    assert_eq!(command_line(&words(&["echo", "a b", "", " c", "\"d\""])), "echo a b   c \"d\"");
}

#[test]
fn join_agrees_with_the_standard_join() {
    let cases: Vec<Vec<String>> = vec![
        words(&[]),
        words(&[""]),
        words(&["", ""]),
        words(&["systemctl", "suspend"]),
        words(&["sh", "-c", "echo low > /tmp/battery"]),
        words(&["zenity", "--warning", "--text=Akku fast leer: é ü"]),
    ];
    for tokens in cases {
        assert_eq!(command_line(&tokens), tokens.join(" "));
    }
}
