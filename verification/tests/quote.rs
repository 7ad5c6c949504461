use gitbook2md::quote::quote_lines;

fn by_std(body: &str) -> String {
    body.lines()
        .map(|line| format!("> {}", line))
        .collect::<Vec<String>>()
        .join("\n")
}

#[test]
fn quote_of_nothing_is_nothing() {
    assert_eq!(quote_lines(""), "");
}

#[test]
fn quote_single_line() {
    assert_eq!(quote_lines("note"), "> note");
}

#[test]
fn quote_three_lines() {
    assert_eq!(quote_lines("a\nb\nc"), "> a\n> b\n> c");
}

#[test]
fn quote_final_line_feed_adds_no_line() {
    assert_eq!(quote_lines("a\nb\n"), "> a\n> b");
}

#[test]
fn quote_blank_lines_stay_as_quoted_lines() {
    assert_eq!(quote_lines("\n\na\n\n"), "> \n> \n> a\n> ");
    assert_eq!(quote_lines("\n"), "> ");
}

#[test]
fn quote_drops_carriage_return_before_line_feed_only() {
    assert_eq!(quote_lines("a\r\nb"), "> a\n> b");
    assert_eq!(quote_lines("a\r"), "> a\r");
    assert_eq!(quote_lines("a\r\r\n"), "> a\r");
    assert_eq!(quote_lines("a\rb\n"), "> a\rb");
}

#[test]
fn quote_agrees_with_std_lines() {
    let bodies = [
        "",
        "x",
        "\n",
        "\r\n",
        "\r",
        "a\nb",
        "a\r\nb\r\n",
        "a\r",
        "a\r\r\n\r\nb\r",
        "\n\n\n",
        " leading and trailing \n\t tab\n",
        "ünïcödé\nλ\r\n",
    ];
    for body in bodies {
        assert_eq!(quote_lines(body), by_std(body), "body {:?}", body);
    }
}

#[test]
fn quote_has_as_many_lines_as_the_body() {
    let bodies = ["one", "one\ntwo", "one\ntwo\n", "\n\nthree\n\n", "a\r\nb\r\nc"];
    for body in bodies {
        let quote = quote_lines(body);
        assert_eq!(quote.lines().count(), body.lines().count());
        assert!(quote.lines().all(|line| line.starts_with("> ")));
    }
}
