use mem_cli::frame::{
    framing_of, header_step, leading_gap, outgoing_frame, parse_header_line, parse_usize, Framing,
    HeaderLine, HeaderStep,
};
use serde_json::Value;

/// Read one message from `input` with the framing rules of the library:
/// `None` at the end of input, else the parsed JSON value and the rest.
fn read_message(input: &[u8]) -> Option<(Value, &[u8])> {
    let gap = leading_gap(input);
    let rest = &input[gap..];
    if rest.is_empty() {
        return None;
    }
    match framing_of(rest[0]) {
        Framing::JsonLine => {
            let end = rest.iter().position(|b| *b == b'\n').map(|p| p + 1).unwrap_or(rest.len());
            let line = std::str::from_utf8(&rest[..end]).unwrap();
            Some((serde_json::from_str(line.trim()).unwrap(), &rest[end..]))
        }
        Framing::Headers => {
            let mut seen = None;
            let mut rest = rest;
            loop {
                if rest.is_empty() {
                    return None;
                }
                let end = rest.iter().position(|b| *b == b'\n').map(|p| p + 1).unwrap_or(rest.len());
                let line = std::str::from_utf8(&rest[..end]).unwrap();
                rest = &rest[end..];
                match header_step(seen, line) {
                    HeaderStep::Next(s) => seen = s,
                    HeaderStep::Body(n) => {
                        let body = &rest[..n];
                        return Some((serde_json::from_slice(body).unwrap(), &rest[n..]));
                    }
                    HeaderStep::MissingLength => panic!("missing Content-Length header"),
                    HeaderStep::BadLength(v) => panic!("invalid Content-Length value: {v}"),
                }
            }
        }
    }
}

fn tools_list_request() -> Value {
    let mut params = serde_json::Map::new();
    params.insert("jsonrpc".to_string(), Value::String("2.0".to_string()));
    params.insert("id".to_string(), Value::from(1));
    params.insert("method".to_string(), Value::String("tools/list".to_string()));
    params.insert("params".to_string(), Value::Object(serde_json::Map::new()));
    Value::Object(params)
}

#[test]
fn read_message_parses_content_length_frame() {
    let request = tools_list_request();
    let body = serde_json::to_string(&request).expect("serialize request");
    let input = format!("Content-Length: {}\r\n\r\n{}", body.len(), body);
    let (parsed, rest) = read_message(input.as_bytes()).expect("message");
    assert_eq!(parsed, request);
    assert!(rest.is_empty());
}

#[test]
fn read_message_parses_raw_json_message() {
    let request = tools_list_request();
    let body = serde_json::to_string(&request).expect("serialize request");
    let (parsed, _) = read_message(body.as_bytes()).expect("message");
    assert_eq!(parsed, request);
}

#[test]
fn messages_follow_one_another() {
    let input = b"\r\n  {\"a\":1}\n\ncontent-length: 7\r\nX-Other: y\r\n\r\n{\"b\":2}  \n";
    let (first, rest) = read_message(input).unwrap();
    assert_eq!(first["a"], 1);
    let (second, rest) = read_message(rest).unwrap();
    assert_eq!(second["b"], 2);
    assert!(read_message(rest).is_none());
}

#[test]
fn gaps_and_framing() {
    assert_eq!(leading_gap(b" \t\r\n{"), 4);
    assert_eq!(leading_gap(b""), 0);
    assert_eq!(leading_gap(b"  "), 2);
    assert_eq!(framing_of(b'{'), Framing::JsonLine);
    assert_eq!(framing_of(b'['), Framing::JsonLine);
    assert_eq!(framing_of(b'C'), Framing::Headers);
}

#[test]
fn content_length_values() {
    assert_eq!(parse_usize("42"), Some(42));
    assert_eq!(parse_usize("+7"), Some(7));
    assert_eq!(parse_usize("007"), Some(7));
    assert_eq!(parse_usize(""), None);
    assert_eq!(parse_usize("+"), None);
    assert_eq!(parse_usize("-1"), None);
    assert_eq!(parse_usize("1a"), None);
    assert_eq!(parse_usize(&usize::MAX.to_string()), Some(usize::MAX));
    assert_eq!(parse_usize("99999999999999999999999"), None);
    for s in ["0", "18446744073709551615", "18446744073709551616", " 1", "1 ", "٣"] {
        assert_eq!(parse_usize(s), s.parse::<usize>().ok(), "{s}");
    }
}

#[test]
fn header_lines() {
    assert!(matches!(parse_header_line("\r\n"), HeaderLine::End));
    assert!(matches!(parse_header_line(""), HeaderLine::End));
    assert!(matches!(parse_header_line("Content-Length: 12\r\n"), HeaderLine::ContentLength(12)));
    assert!(matches!(parse_header_line("CONTENT-LENGTH:3"), HeaderLine::ContentLength(3)));
    assert!(matches!(parse_header_line("Content-Type: x\r\n"), HeaderLine::Other));
    assert!(matches!(parse_header_line("no colon here"), HeaderLine::Other));
    match parse_header_line("Content-Length:  abc \r\n") {
        HeaderLine::BadContentLength(v) => assert_eq!(v, "abc"),
        other => panic!("unexpected {other:?}"),
    }
}

#[test]
fn header_steps() {
    assert!(matches!(header_step(None, "Content-Length: 5\r\n"), HeaderStep::Next(Some(5))));
    assert!(matches!(header_step(Some(5), "Content-Length: 9\r\n"), HeaderStep::Next(Some(9))));
    assert!(matches!(header_step(Some(5), "Other: 1\r\n"), HeaderStep::Next(Some(5))));
    assert!(matches!(header_step(Some(5), "\r\n"), HeaderStep::Body(5)));
    assert!(matches!(header_step(None, "\n"), HeaderStep::MissingLength));
    match header_step(None, "Content-Length: x\n") {
        HeaderStep::BadLength(v) => assert_eq!(v, "x"),
        other => panic!("unexpected {other:?}"),
    }
}

#[test]
fn write_message_emits_newline_delimited_json() {
    let mut result = serde_json::Map::new();
    result.insert("jsonrpc".to_string(), Value::String("2.0".to_string()));
    result.insert("id".to_string(), Value::from(1));
    result.insert("result".to_string(), Value::Object(serde_json::Map::new()));
    let message = Value::Object(result);
    let body = serde_json::to_string(&message).expect("write message");
    let output = outgoing_frame(&body);

    assert!(
        !output.contains("Content-Length"),
        "output must not use LSP framing"
    );
    assert!(output.ends_with('\n'), "message must be newline-delimited");
    let parsed: Value = serde_json::from_str(output.trim_end()).expect("parse written message");
    assert_eq!(parsed, message);
    // a written message is read back by the same framing rules
    let (read, rest) = read_message(output.as_bytes()).unwrap();
    assert_eq!(read, message);
    assert!(rest.is_empty());
}
