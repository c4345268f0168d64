use limpio::request::Request;

fn parsed(line: &str) -> (String, String) {
    let request = Request::parse(line);
    (request.method, request.target)
}

fn pair(method: &str, target: &str) -> (String, String) {
    (method.to_string(), target.to_string())
}

#[test]
fn parse_takes_the_first_two_words() {
    assert_eq!(parsed("GET / HTTP/1.1"), pair("GET", "/"));
    assert_eq!(parsed("GET /styles.css HTTP/1.1"), pair("GET", "/styles.css"));
    assert_eq!(parsed("POST /a/b/c.html HTTP/1.0"), pair("POST", "/a/b/c.html"));
    assert_eq!(parsed("GET /x"), pair("GET", "/x"));
    assert_eq!(parsed("a b c d e"), pair("a", "b"));
}

#[test]
fn parse_does_not_judge_the_method() {
    assert_eq!(parsed("DELETE /index.html HTTP/1.1"), pair("DELETE", "/index.html"));
    assert_eq!(parsed("nonsense /index.html"), pair("nonsense", "/index.html"));
    assert_eq!(parsed("/index.html /other.html"), pair("/index.html", "/other.html"));
}

#[test]
fn parse_leaves_empty_what_the_line_lacks() {
    assert_eq!(parsed(""), pair("", ""));
    assert_eq!(parsed("   "), pair("", ""));
    assert_eq!(parsed("\t \r"), pair("", ""));
    assert_eq!(parsed("GET"), pair("GET", ""));
    assert_eq!(parsed("  GET  "), pair("GET", ""));
}

#[test]
fn parse_splits_on_any_run_of_whitespace() {
    assert_eq!(parsed("  GET   /a   HTTP/1.1  "), pair("GET", "/a"));
    assert_eq!(parsed("GET\t/a\tHTTP/1.1"), pair("GET", "/a"));
    assert_eq!(parsed("GET \t \u{a0}/a\u{3000}HTTP/1.1"), pair("GET", "/a"));
    assert_eq!(parsed("GET /a\r"), pair("GET", "/a"));
    assert_eq!(parsed("\u{2003}GET\u{2028}/a"), pair("GET", "/a"));
    // A zero-width space is no whitespace.
    assert_eq!(parsed("GET\u{200b}/a /b"), pair("GET\u{200b}/a", "/b"));
}

#[test]
fn parse_keeps_the_target_as_it_is_written() {
    assert_eq!(parsed("GET /a%20b?x=1#top HTTP/1.1"), pair("GET", "/a%20b?x=1#top"));
    assert_eq!(parsed("GET /../../etc/passwd HTTP/1.1"), pair("GET", "/../../etc/passwd"));
    assert_eq!(parsed("GET /é/ü.png HTTP/1.1"), pair("GET", "/é/ü.png"));
    assert_eq!(parsed("GET //"), pair("GET", "//"));
}

#[test]
fn parse_agrees_with_split_whitespace() {
    for line in [
        "GET / HTTP/1.1",
        "",
        " ",
        "GET",
        " GET",
        "GET ",
        "GET  /",
        "\tGET\t/\t",
        "a b",
        "a  b  c",
        "é ü ö",
        "\u{3000}x\u{3000}y\u{3000}",
        "x\u{85}y",
        "x\u{200b}y z",
        "GET /index.html HTTP/1.1\r",
    ] {
        let mut words = line.split_whitespace();
        let method = words.next().unwrap_or("");
        let target = words.next().unwrap_or("");
        assert_eq!(parsed(line), pair(method, target), "{:?}", line);
    }
}

#[test]
fn file_is_the_index_for_the_root_target() {
    assert_eq!(Request::parse("GET / HTTP/1.1").file("index.html"), "index.html");
    assert_eq!(Request::parse("GET /").file("home/start.htm"), "home/start.htm");
    assert_eq!(Request::parse("GET /").file(""), "");
}

#[test]
fn file_is_the_target_without_its_first_character() {
    assert_eq!(Request::parse("GET /styles.css HTTP/1.1").file("index.html"), "styles.css");
    assert_eq!(Request::parse("GET /a/b/c.png HTTP/1.1").file("index.html"), "a/b/c.png");
    assert_eq!(Request::parse("GET /index.html").file("other.html"), "index.html");
    assert_eq!(Request::parse("GET //").file("index.html"), "/");
    assert_eq!(Request::parse("GET /é.html").file("index.html"), "é.html");
}

#[test]
fn file_does_not_decode_or_clean_the_target() {
    assert_eq!(Request::parse("GET /../secret.txt").file("index.html"), "../secret.txt");
    assert_eq!(Request::parse("GET /a/../../b").file("index.html"), "a/../../b");
    assert_eq!(Request::parse("GET /a%20b?q=1").file("index.html"), "a%20b?q=1");
    assert_eq!(Request::parse("GET /./x").file("index.html"), "./x");
}

#[test]
fn file_is_empty_for_an_empty_target() {
    assert_eq!(Request::parse("GET").file("index.html"), "");
    assert_eq!(Request::parse("").file("index.html"), "");
}

#[test]
fn file_drops_the_first_character_whatever_it_is() {
    assert_eq!(Request::parse("GET index.html").file("home.html"), "ndex.html");
    assert_eq!(Request::parse("GET x").file("home.html"), "");
    assert_eq!(Request::parse("GET étoile.html").file("home.html"), "toile.html");
    assert_eq!(Request::parse("GET *").file("home.html"), "");
}

#[test]
fn parse_whole_line_wants_the_line_feed() {
    let whole = Request::parse_whole_line("GET /a HTTP/1.1\r\n");
    assert_eq!(whole, Some(Request { method: "GET".to_string(), target: "/a".to_string() }));
    let bare = Request::parse_whole_line("GET /a\n");
    assert_eq!(bare, Some(Request { method: "GET".to_string(), target: "/a".to_string() }));
    let empty = Request::parse_whole_line("\n");
    assert_eq!(empty, Some(Request { method: String::new(), target: String::new() }));
}

#[test]
fn parse_whole_line_gives_nothing_for_a_line_cut_short() {
    for text in ["", "GET", "GET /a HTTP/1.1", "GET /a HTTP/1.1\r", "GET /a\nHost: x", " "] {
        assert_eq!(Request::parse_whole_line(text), None, "{:?}", text);
    }
}

#[test]
fn parse_whole_line_agrees_with_parse() {
    for text in ["GET / HTTP/1.1\r\n", "a b c\n", "\n", " x \n", "GET\t/é\r\n"] {
        assert_eq!(Request::parse_whole_line(text), Some(Request::parse(text)), "{:?}", text);
    }
}

#[test]
fn clone_of_a_request_is_equal_to_it() {
    let request = Request::parse("GET /a HTTP/1.1");
    assert_eq!(request.clone(), request);
}
