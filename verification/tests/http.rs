use spec_windows::http::{body_text, http_answer, http_port, HeadStep, HttpHead};

fn text(s: &str) -> Option<String> {
    Some(s.to_string())
}

fn read(lines: &[&str]) -> HeadStep {
    let mut head = HttpHead::new();
    for line in lines {
        let step = head.feed(text(line));
        if step != HeadStep::More {
            return step;
        }
    }
    head.feed(None)
}

#[test]
fn the_length_is_read_from_the_headers() {
    assert_eq!(
        read(&["POST /usage HTTP/1.1\r\n", "Host: x\r\n", "Content-Length: 12\r\n", "\r\n"]),
        HeadStep::Body(12)
    );
    assert_eq!(read(&["content-length:0\n", "\n"]), HeadStep::Body(0));
    assert_eq!(read(&["CONTENT-LENGTH: \t +7 \r\n", " \r\n"]), HeadStep::Body(7));
}

#[test]
fn headers_without_a_length_are_given_up() {
    assert_eq!(read(&["POST /usage HTTP/1.1\r\n", "\r\n"]), HeadStep::Reject);
    assert_eq!(read(&["Content-Length: x\r\n", "\r\n"]), HeadStep::Reject);
    assert_eq!(read(&["Content-Length: -1\r\n", "\r\n"]), HeadStep::Reject);
    assert_eq!(read(&["Content-Length: 18446744073709551616\r\n", "\r\n"]), HeadStep::Reject);
    assert_eq!(read(&[" Content-Length: 1\r\n", "\r\n"]), HeadStep::Reject);
    assert_eq!(read(&["Content-Length : 1\r\n", "\r\n"]), HeadStep::Reject);
}

#[test]
fn the_largest_length_is_read() {
    let line = format!("Content-Length: {}\r\n", usize::MAX);
    assert_eq!(read(&[&line, "\r\n"]), HeadStep::Body(usize::MAX));
}

#[test]
fn headers_that_break_off_are_given_up() {
    assert_eq!(read(&["Content-Length: 1\r\n"]), HeadStep::Reject);
    assert_eq!(read(&[]), HeadStep::Reject);
}

#[test]
fn the_last_length_wins() {
    assert_eq!(
        read(&["Content-Length: 1\r\n", "Content-Length: 2\r\n", "\r\n"]),
        HeadStep::Body(2)
    );
    assert_eq!(
        read(&["Content-Length: 1\r\n", "Content-Length: ?\r\n", "\r\n"]),
        HeadStep::Reject
    );
}

#[test]
fn the_port_has_a_default() {
    assert_eq!(http_port(None), 27182);
    assert_eq!(http_port(text("80")), 80);
    assert_eq!(http_port(text("+65535")), 65535);
    for wrong in ["65536", "", "+", "-1", " 80", "8o", "0x50"] {
        assert_eq!(http_port(text(wrong)), 27182);
    }
}

#[test]
fn numbers_are_read_as_std_reads_them() {
    for s in ["0", "007", "+1", "++1", "1+", "99999", "٣", "1_0", "65535", "65536", "000065535"] {
        let expected = s.parse::<u16>().unwrap_or(27182);
        assert_eq!(http_port(text(s)), expected, "{s}");
    }
}

#[test]
fn a_body_is_text_in_utf8() {
    assert_eq!(body_text("sessão".as_bytes().to_vec()), text("sessão"));
    assert_eq!(body_text(vec![]), text(""));
    assert_eq!(body_text(vec![0xff]), None);
    assert_eq!(body_text(vec![0x73, 0xc3]), None);
}

#[test]
fn every_body_that_was_read_is_answered() {
    let ok = "HTTP/1.1 200 OK\r\nContent-Length: 0\r\nConnection: close\r\n\r\n";
    assert_eq!(http_answer(&text("not a report")), text(ok));
    assert_eq!(http_answer(&text("")), text(ok));
    assert_eq!(http_answer(&None), None);
}
