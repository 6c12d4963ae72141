use std::str::FromStr;

use manifest_model::common::port::Encoded;
use manifest_model::common::port::Parser;
use manifest_model::common::port::Port;
use manifest_model::common::port::Protocol;
use manifest_model::common::port::Target;
use manifest_model::common::port::Token;
use manifest_model::common::Id;
use manifest_model::common::Invalid;
use serde_yml::Value;

fn text(s: &str) -> Token {
    Token::Text(s.to_string())
}

fn codec(name: &str, port: u16, prot: Option<Protocol>, encoded: Encoded) {
    let target = Target { name: Id::try_from(name.to_string()).unwrap(), port: Port::new(port), prot };
    assert_eq!(target, Target::decode(encoded.clone()).unwrap());
    assert_eq!(encoded, target.encode());
}

#[test]
fn target_bare_name() {
    codec("http", 0, None, Encoded::Scalar(text("http")));
}

#[test]
fn target_name_port() {
    codec("http", 80, None, Encoded::Sequence(vec![text("http"), Token::Number(80)]));
}

#[test]
fn target_name_tcp() {
    codec("http", 0, Some(Protocol::Tcp), Encoded::Sequence(vec![text("http"), text("tcp")]));
}

#[test]
fn target_name_udp() {
    codec("http", 0, Some(Protocol::Udp), Encoded::Sequence(vec![text("http"), text("udp")]));
}

#[test]
fn target_name_port_tcp() {
    codec(
        "http",
        80,
        Some(Protocol::Tcp),
        Encoded::Sequence(vec![text("http"), Token::Number(80), text("tcp")]),
    );
}

#[test]
fn target_name_port_udp() {
    codec(
        "http",
        443,
        Some(Protocol::Udp),
        Encoded::Sequence(vec![text("http"), Token::Number(443), text("udp")]),
    );
}

#[test]
fn single_element_sequence_is_the_bare_name() {
    let wrapped = Target::decode(Encoded::Sequence(vec![text("http")])).unwrap();
    let bare = Target::decode(Encoded::Scalar(text("http"))).unwrap();
    assert_eq!(wrapped, bare);
    assert_eq!(wrapped.port, None);
    assert_eq!(wrapped.prot, None);
    assert_eq!(wrapped.encode(), Encoded::Scalar(text("http")));
    assert_eq!(
        Parser::decode(Encoded::Sequence(vec![text("http")])).unwrap(),
        Parser::TupleName(Id::from_str("http").unwrap())
    );
}

#[test]
fn forms_convert_both_ways() {
    let name = Id::from_str("http").unwrap();
    let port = Port::new(80).unwrap();
    let forms = [
        Parser::TupleNamePortProt(name.clone(), port, Protocol::Udp),
        Parser::TupleNameProt(name.clone(), Protocol::Tcp),
        Parser::TupleNamePort(name.clone(), port),
        Parser::Name(name.clone()),
    ];
    for form in forms {
        assert_eq!(Parser::from(Target::from(form.clone())), form);
        assert_eq!(Parser::decode(form.encode()).unwrap(), form);
    }
    assert_eq!(
        Parser::from(Target::from(Parser::TupleName(name.clone()))),
        Parser::Name(name)
    );
}

#[test]
fn mismatched_values_come_back() {
    let bad = [
        Encoded::Scalar(Token::Number(80)),
        Encoded::Scalar(text("Http")),
        Encoded::Sequence(vec![]),
        Encoded::Sequence(vec![Token::Number(80)]),
        Encoded::Sequence(vec![text("http"), text("sctp")]),
        Encoded::Sequence(vec![text("http"), text("TCP")]),
        Encoded::Sequence(vec![text("http"), text("80")]),
        Encoded::Sequence(vec![text("http"), Token::Number(0)]),
        Encoded::Sequence(vec![text("http"), Token::Number(65536)]),
        Encoded::Sequence(vec![text("http"), text("tcp"), Token::Number(80)]),
        Encoded::Sequence(vec![text("http"), Token::Number(80), text("icmp")]),
        Encoded::Sequence(vec![text("http"), Token::Number(80), Token::Number(80)]),
        Encoded::Sequence(vec![text("-http"), Token::Number(80), text("tcp")]),
        Encoded::Sequence(vec![text("http"), Token::Number(80), text("tcp"), text("tcp")]),
    ];
    for encoded in bad {
        assert_eq!(Target::decode(encoded.clone()), Err(Invalid(encoded.clone())));
        assert_eq!(Parser::read(&encoded), None);
    }
}

#[test]
fn highest_port_is_read() {
    let target = Target::decode(Encoded::Sequence(vec![text("http"), Token::Number(65535)])).unwrap();
    assert_eq!(target.port.unwrap().get(), 65535);
    assert_eq!(Port::new(0), None);
}

#[test]
fn protocol_words() {
    assert_eq!(Protocol::from_str("tcp"), Some(Protocol::Tcp));
    assert_eq!(Protocol::from_str("udp"), Some(Protocol::Udp));
    assert_eq!(Protocol::from_str("Tcp"), None);
    assert_eq!(Protocol::from_str(""), None);
    assert_eq!(Protocol::Tcp.as_str(), "tcp");
    assert_eq!(Protocol::Udp.as_str(), "udp");
    assert_eq!(Protocol::default(), Protocol::Tcp);
}

#[test]
fn targets_sort_by_name_port_protocol() {
    let make = |name: &str, port: u16, prot: Option<Protocol>| Target {
        name: Id::from_str(name).unwrap(),
        port: Port::new(port),
        prot,
    };
    assert!(make("a", 90, None) < make("b", 80, None));
    assert!(make("a", 0, Some(Protocol::Udp)) < make("a", 80, None));
    assert!(make("a", 80, Some(Protocol::Tcp)) < make("a", 80, Some(Protocol::Udp)));
}

#[test]
fn ports_and_protocols_sort() {
    assert!(Port::new(80).unwrap() < Port::new(443).unwrap());
    assert!(Port::new(443).unwrap() >= Port::new(443).unwrap());
    assert!(Protocol::Tcp < Protocol::Udp);
    assert!(Port::new(1) < Port::new(2));
    assert!(None < Port::new(1));
}

#[test]
fn equal_targets_are_equal() {
    let make = |name: &str, port: u16, prot: Option<Protocol>| Target {
        name: Id::from_str(name).unwrap(),
        port: Port::new(port),
        prot,
    };
    assert_eq!(make("a", 80, Some(Protocol::Tcp)), make("a", 80, Some(Protocol::Tcp)));
    assert_ne!(make("a", 80, Some(Protocol::Tcp)), make("a", 80, Some(Protocol::Udp)));
    assert_ne!(make("a", 80, None), make("a", 81, None));
    assert_ne!(make("a", 80, None), make("a", 0, None));
    assert_ne!(make("a", 80, None), make("b", 80, None));
    assert_eq!(make("a", 80, None).compare(&make("a", 80, None)), 0);
    assert_eq!(make("a", 80, None).compare(&make("a", 81, None)), -1);
    assert_eq!(make("b", 80, None).compare(&make("a", 81, None)), 1);
}

fn token_from(value: &Value) -> Token {
    match value {
        Value::String(text) => Token::Text(text.clone()),
        Value::Number(number) => Token::Number(number.as_u64().unwrap()),
        other => panic!("not a scalar of a target: {:?}", other),
    }
}

fn encoded_from(value: &Value) -> Encoded {
    match value {
        Value::Sequence(items) => Encoded::Sequence(items.iter().map(token_from).collect()),
        other => Encoded::Scalar(token_from(other)),
    }
}

fn value_from_token(token: &Token) -> Value {
    match token {
        Token::Text(text) => Value::String(text.clone()),
        Token::Number(number) => Value::Number((*number).into()),
    }
}

fn value_from(encoded: &Encoded) -> Value {
    match encoded {
        Encoded::Scalar(token) => value_from_token(token),
        Encoded::Sequence(tokens) => Value::Sequence(tokens.iter().map(value_from_token).collect()),
    }
}

fn yaml_codec(name: &str, port: u16, prot: Option<Protocol>, src: &str, dst: &str) {
    let port = Target { name: Id::try_from(name.to_string()).unwrap(), port: Port::new(port), prot };
    let read: Value = serde_yml::from_str(src).unwrap();
    assert_eq!(port, Target::decode(encoded_from(&read)).unwrap());
    assert_eq!(dst, serde_yml::to_string(&value_from(&port.encode())).unwrap());
}

#[test]
fn serde_name() {
    yaml_codec("http", 0, None, "http", "http\n");
}

#[test]
fn serde_name_port() {
    yaml_codec("http", 80, None, "[http, 80]", "- http\n- 80\n");
}

#[test]
fn serde_name_tcp() {
    yaml_codec("http", 0, Some(Protocol::Tcp), "[http, tcp]", "- http\n- tcp\n");
}

#[test]
fn serde_name_udp() {
    yaml_codec("http", 0, Some(Protocol::Udp), "[http, udp]", "- http\n- udp\n");
}

#[test]
fn serde_name_port_tcp() {
    yaml_codec("http", 80, Some(Protocol::Tcp), "[http, 80, tcp]", "- http\n- 80\n- tcp\n");
}

#[test]
fn serde_name_port_udp() {
    yaml_codec("http", 443, Some(Protocol::Udp), "[http, 443, udp]", "- http\n- 443\n- udp\n");
}

#[test]
fn serde_single_element_sequence() {
    let wrapped: Value = serde_yml::from_str("[http]").unwrap();
    let bare: Value = serde_yml::from_str("http").unwrap();
    let target = Target::decode(encoded_from(&wrapped)).unwrap();
    assert_eq!(target, Target::decode(encoded_from(&bare)).unwrap());
    assert_eq!(serde_yml::to_string(&value_from(&target.encode())).unwrap(), "http\n");
}

#[test]
fn serde_quoted_port_is_no_port() {
    let quoted: Value = serde_yml::from_str("[http, \"80\"]").unwrap();
    assert!(Target::decode(encoded_from(&quoted)).is_err());
    let zero: Value = serde_yml::from_str("[http, 0]").unwrap();
    assert!(Target::decode(encoded_from(&zero)).is_err());
    let other: Value = serde_yml::from_str("[http, icmp]").unwrap();
    assert!(Target::decode(encoded_from(&other)).is_err());
}
