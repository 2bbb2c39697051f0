use request_line::error::MyError;
use request_line::grammar::{is_tchar, is_whitespace, scan, ByteClass};
use request_line::method::Method;
use request_line::request::{consume_whitespace, read_request_target, read_token, Request};
use request_line::text::decode;

fn parse(input: &[u8]) -> Result<Request, MyError> {
    Request::try_from(input)
}

fn parsed(method: Method, path: &str) -> Result<Request, MyError> {
    Ok(Request { method, path: path.to_string() })
}

fn bad_token(token: &str) -> Result<Request, MyError> {
    Err(MyError::InvalidMethodToken(token.to_string()))
}

const ALL: [(Method, &str); 8] = [
    (Method::Get, "GET"),
    (Method::Head, "HEAD"),
    (Method::Post, "POST"),
    (Method::Put, "PUT"),
    (Method::Delete, "DELETE"),
    (Method::Connect, "CONNECT"),
    (Method::Options, "OPTIONS"),
    (Method::Trace, "TRACE"),
];

#[test]
fn every_verb_parses_with_its_target() {
    for (method, verb) in ALL {
        let line = format!("{} /somepath\r\n", verb);
        assert_eq!(parse(line.as_bytes()), parsed(method, "/somepath"));
    }
}

#[test]
fn get_line_with_version() {
    assert_eq!(parse(b"GET /index.html HTTP/1.1\r\nHost: a\r\n\r\n"), parsed(Method::Get, "/index.html"));
}

#[test]
fn lowercase_verb_is_rejected_with_its_token() {
    assert_eq!(parse(b"get / HTTP/1.1"), bad_token("get"));
}

#[test]
fn mixed_case_and_unknown_verbs_are_rejected() {
    assert_eq!(parse(b"Get /"), bad_token("Get"));
    assert_eq!(parse(b"PATCH /x"), bad_token("PATCH"));
    assert_eq!(parse(b"GETX /"), bad_token("GETX"));
    assert_eq!(parse(b"GE /"), bad_token("GE"));
    assert_eq!(parse(b"get"), bad_token("get"));
    assert_eq!(parse(b"!#$%&'*+-.^_`|~09azAZ /"), bad_token("!#$%&'*+-.^_`|~09azAZ"));
}

#[test]
fn target_may_follow_the_verb_directly() {
    assert_eq!(parse(b"GET/path "), parsed(Method::Get, "/path"));
    assert_eq!(parse(b"PUT/"), parsed(Method::Put, "/"));
}

#[test]
fn separators_are_skipped_greedily() {
    assert_eq!(parse(b"GET \t\r\n\x0b\x0c  /a b"), parsed(Method::Get, "/a"));
    assert_eq!(parse(b"POST\x0b/v"), parsed(Method::Post, "/v"));
}

#[test]
fn parsing_twice_gives_equal_results() {
    let inputs: [&[u8]; 5] = [b"GET /a HTTP/1.1\r\n", b"get /", b"", b"TRACE", b"GET /\xff"];
    for input in inputs {
        assert_eq!(parse(input), parse(input));
    }
}

#[test]
fn bare_verb_has_empty_path() {
    assert_eq!(parse(b"GET"), parsed(Method::Get, ""));
    for (method, verb) in ALL {
        assert_eq!(parse(verb.as_bytes()), parsed(method, ""));
    }
}

#[test]
fn verb_and_separators_only_has_empty_path() {
    assert_eq!(parse(b"HEAD "), parsed(Method::Head, ""));
    assert_eq!(parse(b"HEAD \r\n"), parsed(Method::Head, ""));
}

#[test]
fn leading_separator_gives_empty_token() {
    assert_eq!(parse(b" GET /x"), bad_token(""));
    assert_eq!(parse(b"/GET"), bad_token(""));
    assert_eq!(parse(b""), bad_token(""));
}

#[test]
fn target_that_is_no_text_is_rejected() {
    assert_eq!(parse(b"GET /\xff\xfe HTTP/1.1"), Err(MyError::InvalidUtf8));
    assert_eq!(parse(b"GET /\xc3"), Err(MyError::InvalidUtf8));
}

#[test]
fn target_is_decoded_as_utf8() {
    assert_eq!(parse("GET /caf\u{e9}/\u{4e2d} x".as_bytes()), parsed(Method::Get, "/caf\u{e9}/\u{4e2d}"));
}

#[test]
fn classify_each_verb() {
    for (method, verb) in ALL {
        assert_eq!(Method::try_from(verb.as_bytes()), Ok(method));
    }
}

#[test]
fn classify_rejects_other_tokens() {
    assert_eq!(Method::try_from(&b"get"[..]), Err(MyError::InvalidMethodToken("get".to_string())));
    assert_eq!(Method::try_from(&b""[..]), Err(MyError::InvalidMethodToken(String::new())));
    assert_eq!(Method::try_from(&b"GET "[..]), Err(MyError::InvalidMethodToken("GET ".to_string())));
    assert_eq!(Method::try_from(&b"\xff"[..]), Err(MyError::InvalidUtf8));
}

#[test]
fn verbs_are_written_in_upper_case() {
    for (method, verb) in ALL {
        assert_eq!(method.as_str(), verb);
        assert_eq!(method.to_string(), verb);
    }
}

#[test]
fn request_is_written_as_verb_space_target() {
    let request = Request { method: Method::Delete, path: "/a/b".to_string() };
    assert_eq!(request.to_string(), "DELETE /a/b");
    let empty = Request { method: Method::Get, path: String::new() };
    assert_eq!(empty.to_string(), "GET ");
}

#[test]
fn errors_are_described() {
    assert_eq!(MyError::InvalidMethodToken("get".to_string()).to_string(), "Invalid method token get");
    assert_eq!(MyError::IoError.to_string(), "IO error");
    assert_eq!(MyError::InvalidUtf8.to_string(), "Invalid UTF-8");
}

#[test]
fn io_errors_collapse_to_one_kind() {
    let reset = std::io::Error::new(std::io::ErrorKind::ConnectionReset, "reset");
    let timed_out = std::io::Error::new(std::io::ErrorKind::TimedOut, "timed out");
    assert_eq!(MyError::from(reset), MyError::IoError);
    assert_eq!(MyError::from(timed_out), MyError::IoError);
}

#[test]
fn token_characters() {
    let symbols = b"!#$%&'*+-.^_`|~";
    for c in 0u8..=255 {
        let expected = c.is_ascii_alphanumeric() || symbols.contains(&c);
        assert_eq!(is_tchar(c), expected, "byte {}", c);
    }
    assert!(!is_tchar(b'/'));
    assert!(!is_tchar(b' '));
    assert!(!is_tchar(b'"'));
    assert!(!is_tchar(b'('));
    assert!(!is_tchar(b','));
    assert!(!is_tchar(b':'));
    assert!(!is_tchar(b'@'));
    assert!(!is_tchar(b'['));
    assert!(!is_tchar(b'{'));
    assert!(!is_tchar(0x7f));
    assert!(!is_tchar(0x80));
}

#[test]
fn separator_bytes() {
    for c in 0u8..=255 {
        let expected = matches!(c, b' ' | b'\t' | b'\n' | 0x0b | 0x0c | b'\r');
        assert_eq!(is_whitespace(c), expected, "byte {}", c);
    }
}

#[test]
fn byte_classes() {
    assert!(ByteClass::Token.contains(b'G'));
    assert!(!ByteClass::Token.contains(b'/'));
    assert!(ByteClass::Separator.contains(b'\r'));
    assert!(!ByteClass::Separator.contains(b'/'));
    assert!(ByteClass::Target.contains(b'/'));
    assert!(ByteClass::Target.contains(0xff));
    assert!(!ByteClass::Target.contains(b' '));
}

#[test]
fn scan_finds_the_end_of_a_run() {
    let line = b"GET  /a b";
    assert_eq!(scan(line, 0, ByteClass::Token), 3);
    assert_eq!(scan(line, 3, ByteClass::Token), 3);
    assert_eq!(scan(line, 3, ByteClass::Separator), 5);
    assert_eq!(scan(line, 5, ByteClass::Target), 7);
    assert_eq!(scan(line, 8, ByteClass::Target), 9);
    assert_eq!(scan(line, 9, ByteClass::Target), 9);
    assert_eq!(scan(line, 20, ByteClass::Target), 20);
    assert_eq!(scan(b"", 0, ByteClass::Token), 0);
}

#[test]
fn read_token_stops_at_first_other_byte() {
    let mut cursor = 0usize;
    assert_eq!(read_token(b"GET /x", &mut cursor), b"GET");
    assert_eq!(cursor, 3);
    let mut cursor = 10usize;
    assert_eq!(read_token(b"a-b.c d", &mut cursor), b"a-b.c");
    assert_eq!(cursor, 15);
}

#[test]
fn read_token_takes_everything_without_a_terminator() {
    let mut cursor = 0usize;
    assert_eq!(read_token(b"OPTIONS", &mut cursor), b"OPTIONS");
    assert_eq!(cursor, 7);
}

#[test]
fn read_token_may_be_empty() {
    let mut cursor = 4usize;
    assert_eq!(read_token(b" GET", &mut cursor), b"");
    assert_eq!(cursor, 4);
    assert_eq!(read_token(b"", &mut cursor), b"");
    assert_eq!(cursor, 4);
}

#[test]
fn consume_whitespace_moves_past_the_run() {
    let line = b"GET \t\r\n/x";
    let mut cursor = 3usize;
    consume_whitespace(line, &mut cursor);
    assert_eq!(cursor, 7);
    consume_whitespace(line, &mut cursor);
    assert_eq!(cursor, 7);
}

#[test]
fn consume_whitespace_tolerates_the_end() {
    let mut cursor = 3usize;
    consume_whitespace(b"GET", &mut cursor);
    assert_eq!(cursor, 3);
    let mut cursor = 3usize;
    consume_whitespace(b"GET  ", &mut cursor);
    assert_eq!(cursor, 5);
    let mut cursor = 9usize;
    consume_whitespace(b"GET", &mut cursor);
    assert_eq!(cursor, 9);
}

#[test]
fn read_request_target_stops_at_separator() {
    let mut cursor = 4usize;
    assert_eq!(read_request_target(b"/a/b?c=d HTTP/1.1", &mut cursor), b"/a/b?c=d");
    assert_eq!(cursor, 12);
    let mut cursor = 0usize;
    assert_eq!(read_request_target(b"/a\x0bb", &mut cursor), b"/a");
    assert_eq!(cursor, 2);
}

#[test]
fn read_request_target_takes_the_rest() {
    let mut cursor = 4usize;
    assert_eq!(read_request_target(b"/all", &mut cursor), b"/all");
    assert_eq!(cursor, 8);
    assert_eq!(read_request_target(b"", &mut cursor), b"");
    assert_eq!(cursor, 8);
    assert_eq!(read_request_target(b" /x", &mut cursor), b"");
    assert_eq!(cursor, 8);
}

#[test]
fn decode_accepts_utf8_only() {
    assert_eq!(decode(b"/path"), Some("/path".to_string()));
    assert_eq!(decode(b""), Some(String::new()));
    assert_eq!(decode("\u{e9}".as_bytes()), Some("\u{e9}".to_string()));
    assert_eq!(decode(b"\xed\xa0\x80"), None);
    assert_eq!(decode(b"\xc0\x80"), None);
    assert_eq!(decode(b"\xf4\x90\x80\x80"), None);
    assert_eq!(decode(b"\x80"), None);
}
