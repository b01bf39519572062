use http_server::clock::{clock_text_of, http_date, CivilTime};
use http_server::create_responses::{
    create_error_response, create_error_response_at, create_text_response,
    create_text_response_at, get_http_date,
};
use http_server::handler::{handle_request, handle_request_at, request_tokens};
use http_server::response::{find_header, format_response, HttpResponse};
use http_server::router::{route, route_at};
use http_server::routes::{echo, hello, time};
use http_server::text::{decimal_text, padded_text, same_text, signed_decimal_text, starts_with};

fn at(year: i32, month: u32, day: u32, hour: u32, minute: u32, second: u32, weekday: u32) -> CivilTime {
    CivilTime { year, month, day, hour, minute, second, weekday }
}

fn tuesday() -> CivilTime {
    at(2024, 3, 5, 7, 8, 9, 1)
}

fn header<'a>(r: &'a HttpResponse, name: &str) -> Option<&'a str> {
    find_header(&r.headers, name).map(|v| v.as_str())
}

fn is_clock_shaped(s: &str) -> bool {
    let pattern = "##/##/#### ##:##:##";
    s.chars().count() == pattern.chars().count()
        && s.chars().zip(pattern.chars()).all(|(c, p)| if p == '#' { c.is_ascii_digit() } else { c == p })
}

fn is_http_date_shaped(s: &str) -> bool {
    let days = ["Mon", "Tue", "Wed", "Thu", "Fri", "Sat", "Sun"];
    let months = ["Jan", "Feb", "Mar", "Apr", "May", "Jun", "Jul", "Aug", "Sep", "Oct", "Nov", "Dec"];
    let parts: Vec<&str> = s.split(' ').collect();
    parts.len() == 6
        && parts[0].len() == 4
        && parts[0].ends_with(',')
        && days.contains(&&parts[0][..3])
        && parts[1].len() == 2
        && parts[1].chars().all(|c| c.is_ascii_digit())
        && months.contains(&parts[2])
        && parts[3].len() == 4
        && parts[3].chars().all(|c| c.is_ascii_digit())
        && parts[4].len() == 8
        && parts[5] == "GMT"
}

fn body_of(wire: &str) -> &str {
    let start = wire.find("\r\n\r\n").unwrap() + 4;
    &wire[start..wire.len() - 6]
}

#[test]
fn format_starts_with_status_line() {
    let r = create_error_response_at(418, "I'm a teapot".to_string(), "short".to_string(), &tuesday());
    let out = format_response(r);
    assert!(out.starts_with("HTTP/1.1 418 I'm a teapot\r\n"));
}

#[test]
fn format_exact_wire() {
    let r = create_text_response_at("hi".to_string(), &tuesday());
    let out = format_response(r);
    assert_eq!(
        out,
        "HTTP/1.1 200 OK\r\nContent-Type: text/plain\r\nContent-Length: 2\r\nConnection: close\r\nDate: Tue, 05 Mar 2024 07:08:09 GMT\r\n\r\nhi\r\n\r\n\r\n"
    );
}

#[test]
fn format_orders_priority_headers_first() {
    let r = HttpResponse {
        status_code: 200,
        status_text: "OK".to_string(),
        headers: vec![
            ("X-One".to_string(), "1".to_string()),
            ("Server".to_string(), "tiny".to_string()),
            ("Content-Type".to_string(), "text/plain".to_string()),
            ("X-Two".to_string(), "2".to_string()),
        ],
        body: "b".to_string(),
    };
    let out = format_response(r);
    assert_eq!(
        out,
        "HTTP/1.1 200 OK\r\nContent-Type: text/plain\r\nServer: tiny\r\nX-One: 1\r\nX-Two: 2\r\n\r\nb\r\n\r\n\r\n"
    );
}

#[test]
fn format_without_headers_and_negative_code() {
    let r = HttpResponse {
        status_code: -1,
        status_text: String::new(),
        headers: Vec::new(),
        body: String::new(),
    };
    assert_eq!(format_response(r), "HTTP/1.1 -1 \r\n\r\n\r\n\r\n\r\n");
}

#[test]
fn format_twice_is_identical() {
    let a = format_response(create_text_response_at("same".to_string(), &tuesday()));
    let b = format_response(create_text_response_at("same".to_string(), &tuesday()));
    assert_eq!(a, b);
}

#[test]
fn text_response_content_length_is_byte_length() {
    for body in ["", "abc", "héllo", "日本", "🦀!"] {
        let r = create_text_response(body.to_string());
        assert_eq!(header(&r, "Content-Length"), Some(body.len().to_string().as_str()));
        assert_eq!(r.status_code, 200);
        assert_eq!(r.status_text, "OK");
        assert_eq!(r.body, body);
    }
    let r = create_text_response("héllo".to_string());
    assert_eq!(header(&r, "Content-Length"), Some("6"));
}

#[test]
fn text_response_standard_headers() {
    let r = create_text_response("x".to_string());
    assert_eq!(header(&r, "Content-Type"), Some("text/plain"));
    assert_eq!(header(&r, "Connection"), Some("close"));
    assert!(is_http_date_shaped(header(&r, "Date").unwrap()));
    assert_eq!(r.headers.len(), 4);
    assert_eq!(header(&r, "Server"), None);
}

#[test]
fn error_response_keeps_status_and_body() {
    let r = create_error_response(503, "Service Unavailable".to_string(), "later".to_string());
    assert_eq!(r.status_code, 503);
    assert_eq!(r.status_text, "Service Unavailable");
    assert_eq!(r.body, "later");
    assert_eq!(header(&r, "Content-Length"), Some("5"));
    assert!(is_http_date_shaped(header(&r, "Date").unwrap()));
}

#[test]
fn http_date_of_fixed_time() {
    assert_eq!(http_date(&tuesday()), "Tue, 05 Mar 2024 07:08:09 GMT");
    assert_eq!(http_date(&at(1994, 11, 6, 8, 49, 37, 6)), "Sun, 06 Nov 1994 08:49:37 GMT");
    assert_eq!(http_date(&at(999, 12, 31, 23, 59, 59, 4)), "Fri, 31 Dec 0999 23:59:59 GMT");
}

#[test]
fn http_date_years_out_of_four_digits() {
    assert_eq!(http_date(&at(10000, 1, 1, 0, 0, 0, 0)), "Mon, 01 Jan +10000 00:00:00 GMT");
    assert_eq!(http_date(&at(-5, 1, 1, 0, 0, 0, 0)), "Mon, 01 Jan -0005 00:00:00 GMT");
}

#[test]
fn current_http_date_is_recent() {
    let d = get_http_date();
    assert!(is_http_date_shaped(&d));
    let year: i32 = d.split(' ').nth(3).unwrap().parse().unwrap();
    assert!(year >= 2020);
}

#[test]
fn clock_text_of_fixed_time() {
    assert_eq!(clock_text_of(&tuesday()), "05/03/2024 07:08:09");
    assert!(is_clock_shaped(&clock_text_of(&at(1, 12, 31, 23, 59, 59, 0))));
}

#[test]
fn route_hello() {
    let r = route("GET", "/hello");
    assert_eq!(r.status_code, 200);
    assert_eq!(r.body, "Hello World!");
}

#[test]
fn route_time() {
    let r = route("GET", "/time");
    assert_eq!(r.status_code, 200);
    assert!(is_clock_shaped(&r.body));
}

#[test]
fn route_time_at_fixed_clock() {
    let r = route_at("GET", "/time", &tuesday(), &at(2023, 12, 24, 18, 30, 0, 6));
    assert_eq!(r.body, "24/12/2023 18:30:00");
    assert_eq!(header(&r, "Content-Length"), Some("19"));
    assert_eq!(header(&r, "Date"), Some("Tue, 05 Mar 2024 07:08:09 GMT"));
}

#[test]
fn route_echo() {
    let r = route("GET", "/echo/foo");
    assert_eq!(r.status_code, 200);
    assert_eq!(r.body, "foo");
    let r = route("GET", "/echo/");
    assert_eq!(r.status_code, 200);
    assert_eq!(r.body, "");
    let r = route("GET", "/echo/a/b é");
    assert_eq!(r.body, "a/b é");
}

#[test]
fn route_not_found() {
    for (method, path) in [("GET", "/unknown"), ("POST", "/hello"), ("GET", "/hello/"), ("GET", "/echo"), ("get", "/hello")] {
        let r = route(method, path);
        assert_eq!(r.status_code, 404);
        assert_eq!(r.status_text, "Not Found");
        assert_eq!(r.body, "The entered path doesn't exist.");
    }
}

#[test]
fn route_twice_agrees_but_for_date() {
    let a = route("GET", "/echo/x");
    let b = route("GET", "/echo/x");
    assert_eq!(a.status_code, b.status_code);
    assert_eq!(a.status_text, b.status_text);
    assert_eq!(a.body, b.body);
    for name in ["Content-Type", "Content-Length", "Connection"] {
        assert_eq!(header(&a, name), header(&b, name));
    }
    let c = route_at("GET", "/nope", &tuesday(), &tuesday());
    let d = route_at("GET", "/nope", &tuesday(), &tuesday());
    assert_eq!(format_response(c), format_response(d));
}

#[test]
fn handler_modules() {
    assert_eq!(hello::handle().body, "Hello World!");
    assert_eq!(echo::handle("zz").body, "zz");
    assert!(is_clock_shaped(&time::handle().body));
    assert_eq!(hello::handle_at(&tuesday()).status_code, 200);
    assert_eq!(echo::handle_at("q", &tuesday()).body, "q");
    assert_eq!(time::handle_at(&tuesday(), &tuesday()).body, "05/03/2024 07:08:09");
}

#[test]
fn handle_request_time() {
    let out = handle_request("GET /time HTTP/1.1");
    assert!(out.contains("200 OK"));
    assert!(is_clock_shaped(body_of(&out)));
}

#[test]
fn handle_request_single_token() {
    let out = handle_request("brokenone");
    assert!(out.contains("400 Bad Request"));
    assert_eq!(body_of(&out), "Invalid HTTP request line format. Expected: METHOD PATH HTTP/VERSION.");
}

#[test]
fn handle_request_bad_version() {
    let out = handle_request("GET /time HTTP1.1");
    assert!(out.starts_with("HTTP/1.1 400 Bad Request\r\n"));
    assert_eq!(body_of(&out), "The request is not a valid \"HTTP\" request.");
}

#[test]
fn handle_request_empty_and_too_many_tokens() {
    for raw in ["", "\n", "   ", "GET /hello HTTP/1.1 extra", "GET /hello"] {
        let out = handle_request(raw);
        assert!(out.starts_with("HTTP/1.1 400 Bad Request\r\n"));
        assert_eq!(body_of(&out), "Invalid HTTP request line format. Expected: METHOD PATH HTTP/VERSION.");
    }
}

#[test]
fn handle_request_reads_first_line_only() {
    let out = handle_request("GET /hello HTTP/1.1\r\nHost: localhost\r\n\r\n");
    assert!(out.starts_with("HTTP/1.1 200 OK\r\n"));
    assert_eq!(body_of(&out), "Hello World!");
    let out = handle_request("GET\t /echo/hey \u{3000}HTTP/2");
    assert_eq!(body_of(&out), "hey");
}

#[test]
fn handle_request_not_found() {
    let out = handle_request("POST /hello HTTP/1.1");
    assert!(out.starts_with("HTTP/1.1 404 Not Found\r\n"));
}

#[test]
fn handle_request_at_exact() {
    let out = handle_request_at("GET /echo/abc HTTP/1.0", &tuesday(), &tuesday());
    assert_eq!(
        out,
        "HTTP/1.1 200 OK\r\nContent-Type: text/plain\r\nContent-Length: 3\r\nConnection: close\r\nDate: Tue, 05 Mar 2024 07:08:09 GMT\r\n\r\nabc\r\n\r\n\r\n"
    );
}

#[test]
fn tokens_of_request_line() {
    let t: Vec<String> = request_tokens("  GET  /a\tHTTP/1.1 \r\nHost: b");
    assert_eq!(t, vec!["GET".to_string(), "/a".to_string(), "HTTP/1.1".to_string()]);
    assert!(request_tokens("").is_empty());
    assert_eq!(request_tokens("a\u{a0}b\u{2028}c").len(), 3);
}

#[test]
fn text_helpers() {
    assert_eq!(decimal_text(0), "0");
    assert_eq!(decimal_text(1234567890), "1234567890");
    assert_eq!(decimal_text(u64::MAX), u64::MAX.to_string());
    assert_eq!(padded_text(7, 2), "07");
    assert_eq!(padded_text(123, 2), "123");
    assert_eq!(signed_decimal_text(-404), "-404");
    assert_eq!(signed_decimal_text(i32::MIN), i32::MIN.to_string());
    assert!(starts_with("HTTP/1.1", "HTTP/"));
    assert!(!starts_with("HTTP", "HTTP/"));
    assert!(same_text("é", "é"));
    assert!(!same_text("ab", "abc"));
}

#[test]
fn find_header_returns_first_match() {
    let h = vec![("A".to_string(), "1".to_string()), ("A".to_string(), "2".to_string())];
    assert_eq!(find_header(&h, "A").map(|s| s.as_str()), Some("1"));
    assert_eq!(find_header(&h, "B"), None);
}
