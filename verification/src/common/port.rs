//! Port bindings: the target that a port leads to, and the compact forms
//! in which a manifest writes one.

use std::str::FromStr;

use vstd::prelude::*;
use vstd::string::*;

use super::text::compare_text;
use super::text::str_eq;
use super::text::text_order;
use super::Id;
use super::Invalid;

verus! {

/// A port number. Zero is no port.
#[derive(Copy, Clone, Debug, PartialEq, Eq, Ord, Hash, Structural)]
pub struct Port(u16);

impl View for Port {
    type V = u16;

    closed spec fn view(&self) -> u16 {
        self.0
    }
}

impl Port {
    #[verifier::type_invariant]
    closed spec fn inv(self) -> bool {
        self.0 != 0
    }

    /// The port with this number, if the number is not zero.
    pub fn new(number: u16) -> (r: Option<Port>)
        ensures
            match r {
                Some(port) => port@ == number && number != 0,
                None => number == 0,
            },
    {
        if number == 0 {
            None
        } else {
            Some(Port(number))
        }
    }

    /// The port's number, which is not zero.
    pub fn get(self) -> (r: u16)
        ensures
            r == self@,
            r != 0,
    {
        proof {
            use_type_invariant(&self);
        }
        self.0
    }
}

/// The transport that a binding speaks.
#[derive(Copy, Clone, Debug, PartialEq, Eq, Ord, Hash, Structural)]
pub enum Protocol {
    Tcp,
    Udp,
}

impl Default for Protocol {
    fn default() -> (r: Protocol)
        ensures
            r == Protocol::Tcp,
    {
        Protocol::Tcp
    }
}

impl Protocol {
    /// The place of the protocol among the protocols, from 0.
    pub open spec fn rank(self) -> int {
        match self {
            Protocol::Tcp => 0,
            Protocol::Udp => 1,
        }
    }

    /// The place of the protocol among the protocols, from 0.
    pub fn index(self) -> (r: i8)
        ensures
            r == self.rank(),
    {
        match self {
            Protocol::Tcp => 0,
            Protocol::Udp => 1,
        }
    }

    /// The lowercase word that writes the protocol.
    pub open spec fn token(self) -> Seq<char> {
        match self {
            Protocol::Tcp => seq!['t', 'c', 'p'],
            Protocol::Udp => seq!['u', 'd', 'p'],
        }
    }

    /// The protocol that `text` writes, if it writes one.
    pub open spec fn named(text: Seq<char>) -> Option<Protocol> {
        if text == Protocol::Tcp.token() {
            Some(Protocol::Tcp)
        } else if text == Protocol::Udp.token() {
            Some(Protocol::Udp)
        } else {
            None
        }
    }

    /// The lowercase word that writes the protocol.
    pub fn as_str(self) -> (r: &'static str)
        ensures
            r@ == self.token(),
    {
        proof {
            reveal_strlit("tcp");
            reveal_strlit("udp");
        }
        let r: &'static str = match self {
            Protocol::Tcp => "tcp",
            Protocol::Udp => "udp",
        };
        assert(r@ =~= self.token());
        r
    }

    /// Reads a protocol from its word: `tcp` or `udp`, nothing else.
    pub fn from_str(s: &str) -> (r: Option<Protocol>)
        ensures
            r == Protocol::named(s@),
    {
        if str_eq(s, Protocol::Tcp.as_str()) {
            Some(Protocol::Tcp)
        } else if str_eq(s, Protocol::Udp.as_str()) {
            Some(Protocol::Udp)
        } else {
            None
        }
    }

    /// Every protocol is read back from the word that writes it.
    pub proof fn lemma_token_names(self)
        ensures
            Protocol::named(self.token()) == Some(self),
    {
        assert(Protocol::Tcp.token()[0] != Protocol::Udp.token()[0]);
    }
}

/// One scalar of an encoded value: a piece of text or an unsigned number.
#[derive(Clone, Debug, PartialEq, Eq)]
pub enum Token {
    Text(String),
    Number(u64),
}

/// What a [`Token`] holds.
pub ghost enum TokenView {
    Text(Seq<char>),
    Number(u64),
}

impl View for Token {
    type V = TokenView;

    open spec fn view(&self) -> TokenView {
        match self {
            Token::Text(text) => TokenView::Text(text@),
            Token::Number(number) => TokenView::Number(*number),
        }
    }
}

impl TokenView {
    /// The identifier that the token writes, if it writes one.
    pub open spec fn name(self) -> Option<Seq<char>> {
        match self {
            TokenView::Text(text) => if Id::is_valid(text) {
                Some(text)
            } else {
                None
            },
            TokenView::Number(_) => None,
        }
    }

    /// The port number that the token writes, if it writes one.
    pub open spec fn port(self) -> Option<u16> {
        match self {
            TokenView::Number(number) => if 1 <= number <= u16::MAX {
                Some(number as u16)
            } else {
                None
            },
            TokenView::Text(_) => None,
        }
    }

    /// The protocol that the token writes, if it writes one.
    pub open spec fn prot(self) -> Option<Protocol> {
        match self {
            TokenView::Text(text) => Protocol::named(text),
            TokenView::Number(_) => None,
        }
    }
}

impl Token {
    /// Reads the token as an identifier.
    pub fn name(&self) -> (r: Option<Id>)
        ensures
            match r {
                Some(id) => self@.name() == Some(id@),
                None => self@.name() is None,
            },
    {
        match self {
            Token::Text(text) => match Id::from_str(text.as_str()) {
                Ok(id) => Some(id),
                Err(_) => None,
            },
            Token::Number(_) => None,
        }
    }

    /// Reads the token as a port number.
    pub fn port(&self) -> (r: Option<Port>)
        ensures
            match r {
                Some(port) => self@.port() == Some(port@),
                None => self@.port() is None,
            },
    {
        match self {
            Token::Number(number) => if *number <= 0xffff {
                Port::new(*number as u16)
            } else {
                None
            },
            Token::Text(_) => None,
        }
    }

    /// Reads the token as a protocol.
    pub fn prot(&self) -> (r: Option<Protocol>)
        ensures
            r == self@.prot(),
    {
        match self {
            Token::Text(text) => Protocol::from_str(text.as_str()),
            Token::Number(_) => None,
        }
    }
}

/// An encoded value as a manifest holds it: one scalar, or a sequence of
/// scalars.
#[derive(Clone, Debug, PartialEq, Eq)]
pub enum Encoded {
    Scalar(Token),
    Sequence(Vec<Token>),
}

/// What an [`Encoded`] value holds.
pub ghost enum EncodedView {
    Scalar(TokenView),
    Sequence(Seq<TokenView>),
}

impl View for Encoded {
    type V = EncodedView;

    open spec fn view(&self) -> EncodedView {
        match self {
            Encoded::Scalar(token) => EncodedView::Scalar(token@),
            Encoded::Sequence(tokens) => EncodedView::Sequence(
                tokens@.map_values(|token: Token| token@),
            ),
        }
    }
}

/// The five forms in which a manifest may write a target.
#[derive(Clone, Debug, PartialEq, Eq)]
pub enum Parser {
    /// A sequence of name, port and protocol.
    TupleNamePortProt(Id, Port, Protocol),
    /// A sequence of name and protocol.
    TupleNameProt(Id, Protocol),
    /// A sequence of name and port.
    TupleNamePort(Id, Port),
    /// A sequence that holds the name alone.
    TupleName(Id),
    /// The bare name.
    Name(Id),
}

/// What a [`Parser`] holds.
pub ghost enum ParserView {
    TupleNamePortProt(Seq<char>, u16, Protocol),
    TupleNameProt(Seq<char>, Protocol),
    TupleNamePort(Seq<char>, u16),
    TupleName(Seq<char>),
    Name(Seq<char>),
}

impl View for Parser {
    type V = ParserView;

    open spec fn view(&self) -> ParserView {
        match self {
            Parser::TupleNamePortProt(name, port, prot) => ParserView::TupleNamePortProt(
                name@,
                port@,
                *prot,
            ),
            Parser::TupleNameProt(name, prot) => ParserView::TupleNameProt(name@, *prot),
            Parser::TupleNamePort(name, port) => ParserView::TupleNamePort(name@, port@),
            Parser::TupleName(name) => ParserView::TupleName(name@),
            Parser::Name(name) => ParserView::Name(name@),
        }
    }
}

/// Where a port leads: a name, and the port and protocol to reach it by
/// where they are given.
#[derive(Clone, Debug, Eq, Ord, Hash)]
pub struct Target {
    pub name: Id,
    pub port: Option<Port>,
    pub prot: Option<Protocol>,
}

/// What a [`Target`] holds.
pub ghost struct TargetView {
    pub name: Seq<char>,
    pub port: Option<u16>,
    pub prot: Option<Protocol>,
}

impl View for Target {
    type V = TargetView;

    open spec fn view(&self) -> TargetView {
        TargetView {
            name: self.name@,
            port: match self.port {
                Some(port) => Some(port@),
                None => None,
            },
            prot: self.prot,
        }
    }
}

impl TargetView {
    /// The number by which the port sorts: a missing port before every
    /// port, and ports by their number.
    pub open spec fn port_key(self) -> int {
        match self.port {
            Some(port) => port as int,
            None => -1,
        }
    }

    /// The number by which the protocol sorts: a missing protocol before
    /// every protocol.
    pub open spec fn prot_key(self) -> int {
        match self.prot {
            Some(prot) => prot.rank(),
            None => -1,
        }
    }

    /// How two targets sort: by name, then by port, then by protocol.
    /// `-1` where `self` sorts first, `0` where neither does, `1` where
    /// `other` sorts first.
    pub open spec fn order(self, other: TargetView) -> int {
        if text_order(self.name, other.name) != 0 {
            text_order(self.name, other.name)
        } else if self.port_key() != other.port_key() {
            if self.port_key() < other.port_key() {
                -1
            } else {
                1
            }
        } else if self.prot_key() != other.prot_key() {
            if self.prot_key() < other.prot_key() {
                -1
            } else {
                1
            }
        } else {
            0
        }
    }

    /// A target holds a name that follows the identifier grammar and, if
    /// any, a port that is not zero.
    pub open spec fn wf(self) -> bool {
        Id::is_valid(self.name) && self.port != Some(0u16)
    }

    /// The form in which the target is written: the shortest that holds
    /// every field that is present.
    pub open spec fn form(self) -> ParserView {
        match (self.port, self.prot) {
            (Some(port), Some(prot)) => ParserView::TupleNamePortProt(self.name, port, prot),
            (None, Some(prot)) => ParserView::TupleNameProt(self.name, prot),
            (Some(port), None) => ParserView::TupleNamePort(self.name, port),
            (None, None) => ParserView::Name(self.name),
        }
    }

    /// The target as a manifest holds it.
    pub open spec fn encoded(self) -> EncodedView {
        self.form().encoded()
    }
}

impl ParserView {
    /// A form holds a name that follows the identifier grammar and, if
    /// any, a port that is not zero.
    pub open spec fn wf(self) -> bool {
        self.target().wf()
    }

    /// The target that the form writes.
    pub open spec fn target(self) -> TargetView {
        match self {
            ParserView::TupleNamePortProt(name, port, prot) => TargetView {
                name,
                port: Some(port),
                prot: Some(prot),
            },
            ParserView::TupleNameProt(name, prot) => TargetView {
                name,
                port: None,
                prot: Some(prot),
            },
            ParserView::TupleNamePort(name, port) => TargetView {
                name,
                port: Some(port),
                prot: None,
            },
            ParserView::TupleName(name) => TargetView { name, port: None, prot: None },
            ParserView::Name(name) => TargetView { name, port: None, prot: None },
        }
    }

    /// The form as a manifest holds it: the bare name as a scalar, every
    /// other form as a sequence of its fields in order.
    pub open spec fn encoded(self) -> EncodedView {
        match self {
            ParserView::TupleNamePortProt(name, port, prot) => EncodedView::Sequence(
                seq![
                    TokenView::Text(name),
                    TokenView::Number(port as u64),
                    TokenView::Text(prot.token()),
                ],
            ),
            ParserView::TupleNameProt(name, prot) => EncodedView::Sequence(
                seq![TokenView::Text(name), TokenView::Text(prot.token())],
            ),
            ParserView::TupleNamePort(name, port) => EncodedView::Sequence(
                seq![TokenView::Text(name), TokenView::Number(port as u64)],
            ),
            ParserView::TupleName(name) => EncodedView::Sequence(seq![TokenView::Text(name)]),
            ParserView::Name(name) => EncodedView::Scalar(TokenView::Text(name)),
        }
    }

    /// The form that an encoded value has, if it has one. The number of
    /// elements decides, and between the two forms of two elements what
    /// the second element is: a protocol word or a port number. A second
    /// element that is neither gives no form.
    pub open spec fn decoded(encoded: EncodedView) -> Option<ParserView> {
        match encoded {
            EncodedView::Scalar(token) => match token.name() {
                Some(name) => Some(ParserView::Name(name)),
                None => None,
            },
            EncodedView::Sequence(tokens) => if tokens.len() == 1 {
                match tokens[0].name() {
                    Some(name) => Some(ParserView::TupleName(name)),
                    None => None,
                }
            } else if tokens.len() == 2 {
                match (tokens[0].name(), tokens[1].prot(), tokens[1].port()) {
                    (Some(name), Some(prot), _) => Some(ParserView::TupleNameProt(name, prot)),
                    (Some(name), None, Some(port)) => Some(ParserView::TupleNamePort(name, port)),
                    _ => None,
                }
            } else if tokens.len() == 3 {
                match (tokens[0].name(), tokens[1].port(), tokens[2].prot()) {
                    (Some(name), Some(port), Some(prot)) => Some(
                        ParserView::TupleNamePortProt(name, port, prot),
                    ),
                    _ => None,
                }
            } else {
                None
            },
        }
    }
}

impl Parser {
    /// The token that writes a name.
    fn text(name: &Id) -> (r: Token)
        ensures
            r@ == TokenView::Text(name@),
            Id::is_valid(name@),
    {
        Token::Text(name.as_str().to_owned())
    }

    /// The token that writes a port.
    fn number(port: Port) -> (r: Token)
        ensures
            r@ == TokenView::Number(port@ as u64),
            port@ != 0,
    {
        Token::Number(port.get() as u64)
    }

    /// The token that writes a protocol.
    fn word(prot: Protocol) -> (r: Token)
        ensures
            r@ == TokenView::Text(prot.token()),
    {
        Token::Text(prot.as_str().to_owned())
    }

    /// Finds the form of an encoded value, if it has one.
    pub fn read(encoded: &Encoded) -> (r: Option<Parser>)
        ensures
            match r {
                Some(parser) => ParserView::decoded(encoded@) == Some(parser@),
                None => ParserView::decoded(encoded@) is None,
            },
    {
        match encoded {
            Encoded::Scalar(token) => match token.name() {
                Some(name) => Some(Parser::Name(name)),
                None => None,
            },
            Encoded::Sequence(tokens) => {
                let n: usize = tokens.len();
                if n < 1 || n > 3 {
                    return None;
                }
                let name: Id = match tokens[0].name() {
                    Some(name) => name,
                    None => { return None; },
                };
                if n == 1 {
                    return Some(Parser::TupleName(name));
                }
                if n == 2 {
                    return match tokens[1].prot() {
                        Some(prot) => Some(Parser::TupleNameProt(name, prot)),
                        None => match tokens[1].port() {
                            Some(port) => Some(Parser::TupleNamePort(name, port)),
                            None => None,
                        },
                    };
                }
                match tokens[1].port() {
                    Some(port) => match tokens[2].prot() {
                        Some(prot) => Some(Parser::TupleNamePortProt(name, port, prot)),
                        None => None,
                    },
                    None => None,
                }
            },
        }
    }

    /// Finds the form of an encoded value, or hands the value back when it
    /// has none.
    pub fn decode(encoded: Encoded) -> (r: Result<Parser, Invalid<Encoded>>)
        ensures
            match r {
                Ok(parser) => ParserView::decoded(encoded@) == Some(parser@),
                Err(e) => e.0 == encoded && ParserView::decoded(encoded@) is None,
            },
    {
        match Parser::read(&encoded) {
            Some(parser) => Ok(parser),
            None => Err(Invalid(encoded)),
        }
    }

    /// Writes the form as a manifest holds it.
    pub fn encode(&self) -> (r: Encoded)
        ensures
            r@ == self@.encoded(),
            self@.wf(),
    {
        match self {
            Parser::Name(name) => Encoded::Scalar(Parser::text(name)),
            Parser::TupleName(name) => {
                let mut tokens: Vec<Token> = Vec::new();
                tokens.push(Parser::text(name));
                assert(tokens@.map_values(|token: Token| token@) =~= seq![
                    TokenView::Text(name@),
                ]);
                Encoded::Sequence(tokens)
            },
            Parser::TupleNamePort(name, port) => {
                let mut tokens: Vec<Token> = Vec::new();
                tokens.push(Parser::text(name));
                tokens.push(Parser::number(*port));
                assert(tokens@.map_values(|token: Token| token@) =~= seq![
                    TokenView::Text(name@),
                    TokenView::Number(port@ as u64),
                ]);
                Encoded::Sequence(tokens)
            },
            Parser::TupleNameProt(name, prot) => {
                let mut tokens: Vec<Token> = Vec::new();
                tokens.push(Parser::text(name));
                tokens.push(Parser::word(*prot));
                assert(tokens@.map_values(|token: Token| token@) =~= seq![
                    TokenView::Text(name@),
                    TokenView::Text(prot.token()),
                ]);
                Encoded::Sequence(tokens)
            },
            Parser::TupleNamePortProt(name, port, prot) => {
                let mut tokens: Vec<Token> = Vec::new();
                tokens.push(Parser::text(name));
                tokens.push(Parser::number(*port));
                tokens.push(Parser::word(*prot));
                assert(tokens@.map_values(|token: Token| token@) =~= seq![
                    TokenView::Text(name@),
                    TokenView::Number(port@ as u64),
                    TokenView::Text(prot.token()),
                ]);
                Encoded::Sequence(tokens)
            },
        }
    }
}

impl From<Parser> for Target {
    fn from(parser: Parser) -> (r: Target) {
        let (name, port, prot) = match parser {
            Parser::TupleNamePortProt(name, port, prot) => (name, Some(port), Some(prot)),
            Parser::TupleNameProt(name, prot) => (name, None, Some(prot)),
            Parser::TupleNamePort(name, port) => (name, Some(port), None),
            Parser::TupleName(name) => (name, None, None),
            Parser::Name(name) => (name, None, None),
        };
        Target { name, port, prot }
    }
}

impl vstd::std_specs::convert::FromSpecImpl<Parser> for Target {
    open spec fn obeys_from_spec() -> bool {
        true
    }

    open spec fn from_spec(parser: Parser) -> Target {
        match parser {
            Parser::TupleNamePortProt(name, port, prot) => Target {
                name,
                port: Some(port),
                prot: Some(prot),
            },
            Parser::TupleNameProt(name, prot) => Target { name, port: None, prot: Some(prot) },
            Parser::TupleNamePort(name, port) => Target { name, port: Some(port), prot: None },
            Parser::TupleName(name) => Target { name, port: None, prot: None },
            Parser::Name(name) => Target { name, port: None, prot: None },
        }
    }
}

impl From<Target> for Parser {
    fn from(target: Target) -> (r: Parser) {
        match (target.name, target.port, target.prot) {
            (name, Some(port), Some(prot)) => Parser::TupleNamePortProt(name, port, prot),
            (name, None, Some(prot)) => Parser::TupleNameProt(name, prot),
            (name, Some(port), None) => Parser::TupleNamePort(name, port),
            (name, None, None) => Parser::Name(name),
        }
    }
}

impl vstd::std_specs::convert::FromSpecImpl<Target> for Parser {
    open spec fn obeys_from_spec() -> bool {
        true
    }

    open spec fn from_spec(target: Target) -> Parser {
        match (target.port, target.prot) {
            (Some(port), Some(prot)) => Parser::TupleNamePortProt(target.name, port, prot),
            (None, Some(prot)) => Parser::TupleNameProt(target.name, prot),
            (Some(port), None) => Parser::TupleNamePort(target.name, port),
            (None, None) => Parser::Name(target.name),
        }
    }
}

impl Target {
    /// Finds how two targets sort: by name, then by port, then by
    /// protocol, a missing field before a present one.
    pub fn compare(&self, other: &Target) -> (r: i8)
        ensures
            r == self@.order(other@),
    {
        let by_name: i8 = compare_text(self.name.as_str(), other.name.as_str());
        if by_name != 0 {
            return by_name;
        }
        let mine: i32 = match self.port {
            Some(port) => port.get() as i32,
            None => -1,
        };
        let theirs: i32 = match other.port {
            Some(port) => port.get() as i32,
            None => -1,
        };
        if mine != theirs {
            return if mine < theirs {
                -1
            } else {
                1
            };
        }
        let mine: i8 = match self.prot {
            Some(prot) => prot.index(),
            None => -1,
        };
        let theirs: i8 = match other.prot {
            Some(prot) => prot.index(),
            None => -1,
        };
        if mine != theirs {
            return if mine < theirs {
                -1
            } else {
                1
            };
        }
        0
    }

    /// Reads a target from any of the forms in which a manifest may write
    /// it, or hands the value back when it has none of them.
    pub fn decode(encoded: Encoded) -> (r: Result<Target, Invalid<Encoded>>)
        ensures
            match r {
                Ok(target) => match ParserView::decoded(encoded@) {
                    Some(form) => target@ == form.target() && target@.wf(),
                    None => false,
                },
                Err(e) => e.0 == encoded && ParserView::decoded(encoded@) is None,
            },
    {
        match Parser::decode(encoded) {
            Ok(parser) => {
                proof {
                    ParserView::lemma_encode_decode(encoded@, parser@);
                }
                Ok(Target::from(parser))
            },
            Err(e) => Err(e),
        }
    }

    /// Writes the target in the shortest form that holds every field that
    /// is present.
    pub fn encode(&self) -> (r: Encoded)
        ensures
            r@ == self@.encoded(),
            self@.wf(),
    {
        let whole = Target { name: self.name.clone(), port: self.port, prot: self.prot };
        assert(whole@ == self@);
        Parser::from(whole).encode()
    }
}

impl ParserView {
    /// Every form is read back from what it is written as.
    pub proof fn lemma_decode_encode(self)
        requires
            self.wf(),
        ensures
            ParserView::decoded(self.encoded()) == Some(self),
    {
        match self {
            ParserView::TupleNamePortProt(_, _, prot) => prot.lemma_token_names(),
            ParserView::TupleNameProt(_, prot) => prot.lemma_token_names(),
            _ => {},
        }
    }

    /// An encoded value that has a form is what the target of that form is
    /// written as, unless it is the sequence that holds a name alone: that
    /// one is written back as the bare name.
    pub proof fn lemma_encode_decode(encoded: EncodedView, form: ParserView)
        requires
            ParserView::decoded(encoded) == Some(form),
        ensures
            form.wf(),
            form is TupleName ==> form.target().encoded() == EncodedView::Scalar(
                TokenView::Text(form->TupleName_0),
            ),
            !(form is TupleName) ==> form.target().encoded() == encoded,
    {
        let back = form.target().encoded();
        match encoded {
            EncodedView::Scalar(_) => {},
            EncodedView::Sequence(tokens) => {
                if !(form is TupleName) {
                    assert(back->Sequence_0 =~= tokens);
                }
            },
        }
    }

    /// A sequence that holds one element alone is read as the element by
    /// itself is: to the same target, or not at all.
    pub proof fn lemma_single_element(token: TokenView)
        ensures
            match (
                ParserView::decoded(EncodedView::Sequence(seq![token])),
                ParserView::decoded(EncodedView::Scalar(token)),
            ) {
                (Some(wrapped), Some(bare)) => wrapped.target() == bare.target(),
                (None, None) => true,
                _ => false,
            },
    {
        assert(seq![token][0] == token);
    }
}

impl TargetView {
    /// A target is read back from what it is written as, and it is never
    /// written as a sequence that holds the name alone.
    pub proof fn lemma_round_trip(self)
        requires
            self.wf(),
        ensures
            ParserView::decoded(self.encoded()) == Some(self.form()),
            self.form().target() == self,
            !(self.form() is TupleName),
            match self.encoded() {
                EncodedView::Scalar(_) => self.port is None && self.prot is None,
                EncodedView::Sequence(tokens) => tokens.len() >= 2,
            },
    {
        self.form().lemma_decode_encode();
    }
}

} // verus!
