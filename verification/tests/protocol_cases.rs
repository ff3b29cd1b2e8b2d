use ruskkserv::protocol::{encode_request, parse_request, Request};

#[test]
fn parse_lookup() {
    assert_eq!(parse_request(b"1ai ").unwrap(), Request::Lookup(b"ai"));
    assert_eq!(parse_request(b"1ai").unwrap(), Request::Lookup(b"ai"));
}

#[test]
fn parse_simple_opcodes() {
    assert_eq!(parse_request(b"0").unwrap(), Request::End);
    assert_eq!(parse_request(b"2 ").unwrap(), Request::Version);
    assert_eq!(parse_request(b"3").unwrap(), Request::Host);
}

#[test]
fn parse_completion() {
    assert_eq!(parse_request(b"4kan ").unwrap(), Request::Completion(b"kan"));
}

#[test]
fn encode_lookup_roundtrip() {
    let req = Request::Lookup(b"test");
    let wire = encode_request(&req);
    assert_eq!(wire, b"1test \n");
}
