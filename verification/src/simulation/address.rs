//! The addresses at which a team is reached: how they are written, and what
//! the address parser makes of them.

use vstd::prelude::*;
use vstd::string::StringExecFns;

verus! {

/// `hyper::Uri`: a parsed address. What is inside is not looked at here.
#[verifier::external_type_specification]
#[verifier::external_body]
pub struct ExUri(hyper::Uri);

/// `hyper::http::uri::InvalidUri`: why the parser refused a text. What is
/// inside is not looked at here.
#[verifier::external_type_specification]
#[verifier::external_body]
pub struct ExInvalidUri(hyper::http::uri::InvalidUri);

/// What `<hyper::Uri as FromStr>::from_str` makes of a text.
pub uninterp spec fn uri_parse(text: Seq<char>) -> Result<hyper::Uri, hyper::http::uri::InvalidUri>;

/// Calls `<hyper::Uri as FromStr>::from_str`. The parser reads nothing but
/// its argument and returns an error where it cannot go on, so its result is
/// a function of the text: the one that `uri_parse` names.
#[verifier::external_body]
fn parse_uri(text: &str) -> (parsed: Result<hyper::Uri, hyper::http::uri::InvalidUri>)
    ensures
        parsed == uri_parse(text@),
{
    text.parse::<hyper::Uri>()
}

/// A text that the address parser refused.
#[derive(Debug)]
pub struct InvalidAddress {
    pub text: String,
}

/// The character that writes the digit `d`.
pub open spec fn digit(d: nat) -> char
    recommends
        d < 10,
{
    if d == 0 {
        '0'
    } else if d == 1 {
        '1'
    } else if d == 2 {
        '2'
    } else if d == 3 {
        '3'
    } else if d == 4 {
        '4'
    } else if d == 5 {
        '5'
    } else if d == 6 {
        '6'
    } else if d == 7 {
        '7'
    } else if d == 8 {
        '8'
    } else {
        '9'
    }
}

/// A number written in base ten without leading zeros.
pub open spec fn decimal(n: nat) -> Seq<char>
    decreases n,
{
    if n < 10 {
        seq![digit(n)]
    } else {
        decimal(n / 10).push(digit(n % 10))
    }
}

/// The address of `route` at a service: `http://`, the host, a colon, the
/// port in base ten, and the route.
pub open spec fn endpoint(ip_address: Seq<char>, port: u16, route: Seq<char>) -> Seq<char> {
    "http://"@ + ip_address + ":"@ + decimal(port as nat) + route
}

/// Where a team answers liveness probes.
pub open spec fn heartbeat_address(ip_address: Seq<char>, port: u16) -> Seq<char> {
    endpoint(ip_address, port, "/heartbeat"@)
}

/// Where a team's decision service is polled.
pub open spec fn brain_address(ip_address: Seq<char>, port: u16) -> Seq<char> {
    endpoint(ip_address, port, "/brain"@)
}

fn digit_text(d: u16) -> (text: &'static str)
    requires
        d < 10,
    ensures
        text@ == seq![digit(d as nat)],
{
    proof {
        reveal_strlit("0");
        reveal_strlit("1");
        reveal_strlit("2");
        reveal_strlit("3");
        reveal_strlit("4");
        reveal_strlit("5");
        reveal_strlit("6");
        reveal_strlit("7");
        reveal_strlit("8");
        reveal_strlit("9");
    }
    let text = if d == 0 {
        "0"
    } else if d == 1 {
        "1"
    } else if d == 2 {
        "2"
    } else if d == 3 {
        "3"
    } else if d == 4 {
        "4"
    } else if d == 5 {
        "5"
    } else if d == 6 {
        "6"
    } else if d == 7 {
        "7"
    } else if d == 8 {
        "8"
    } else {
        "9"
    };
    assert(text@ =~= seq![digit(d as nat)]);
    text
}

/// Appends `n` in base ten.
fn append_decimal(text: &mut String, n: u16)
    ensures
        final(text)@ == old(text)@ + decimal(n as nat),
    decreases n,
{
    if n >= 10 {
        append_decimal(text, n / 10);
    }
    text.append(digit_text(n % 10));
    assert(text@ =~= old(text)@ + decimal(n as nat));
}

/// Writes the address of `route` at the service on `ip_address` and `port`.
pub fn endpoint_text(ip_address: &String, port: u16, route: &str) -> (text: String)
    ensures
        text@ == endpoint(ip_address@, port, route@),
{
    let mut text = String::from_str("http://");
    text.append(ip_address.as_str());
    text.append(":");
    append_decimal(&mut text, port);
    text.append(route);
    assert(text@ =~= endpoint(ip_address@, port, route@));
    text
}

/// Parses `text` as an address; a refused text comes back in the error.
pub fn locate(text: String) -> (located: Result<hyper::Uri, InvalidAddress>)
    ensures
        match located {
            Ok(uri) => uri_parse(text@) == Ok::<hyper::Uri, hyper::http::uri::InvalidUri>(uri),
            Err(refused) => uri_parse(text@) is Err && refused.text == text,
        },
{
    match parse_uri(text.as_str()) {
        Ok(uri) => Ok(uri),
        Err(_) => Err(InvalidAddress { text }),
    }
}

} // verus!
