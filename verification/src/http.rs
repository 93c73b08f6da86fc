//! The HTTP front-end: finding the head of a proxy request in a byte stream,
//! parsing it, checking the client's authorization, and the responses that the
//! proxy itself writes.

use crate::addr::{parse_decimal, parse_decimal_spec, parse_ipv6, parse_ipv6_spec, COLON};
use crate::base64::{decode, decode_spec};
use crate::bytes::{
    eq_ignore_case, equal, find, first_occurrence, is_first_occurrence,
    lemma_first_occurrence_found, lemma_first_occurrence_is_first, lemma_split_first_shorter,
    lower_seq, occurs_at, split_byte, split_first, split_once, trim, trim_blanks, CR, HTAB, LF,
    SP,
};
use crate::config::Credentials;
use crate::error::ProxyError;
use vstd::prelude::*;
use vstd::slice::*;
use vstd::string::*;

verus! {

/// The most bytes that the head of a request may take, the closing blank line
/// included.
pub const MAX_HEAD: usize = 8192;

/// The bracket `[` that opens an IPv6 address in an authority.
pub const LEFT_BRACKET: u8 = 91;

/// The bracket `]` that closes it.
pub const RIGHT_BRACKET: u8 = 93;

/// The line break of HTTP.
pub open spec fn crlf() -> Seq<u8> {
    seq![CR, LF]
}

/// The line break that ends the last header line, followed by the empty line
/// that ends the head.
pub open spec fn blank_line() -> Seq<u8> {
    seq![CR, LF, CR, LF]
}

/// What a buffer of received bytes holds of a request's head.
#[derive(Debug, Clone, Copy, PartialEq, Eq, Structural)]
pub enum HeadStatus {
    /// The head has not ended yet, and may still end within the limit.
    Incomplete,
    /// The head is the first so many bytes of the buffer.
    Complete(usize),
    /// The head does not end within the limit.
    TooLong,
}

/// The part of a buffer in which the head has to end.
pub open spec fn head_window(buf: Seq<u8>) -> Seq<u8> {
    if buf.len() <= MAX_HEAD {
        buf
    } else {
        buf.subrange(0, MAX_HEAD as int)
    }
}

/// Where the head of the request in `buf` ends: behind the first blank line,
/// if that lies within the first `MAX_HEAD` bytes.
pub open spec fn locate_head_spec(buf: Seq<u8>) -> HeadStatus {
    match first_occurrence(head_window(buf), blank_line()) {
        Some(i) => HeadStatus::Complete((i + 4) as usize),
        None => if buf.len() >= MAX_HEAD {
            HeadStatus::TooLong
        } else {
            HeadStatus::Incomplete
        },
    }
}

/// Finds the end of the head of the request in `buf`.
pub fn locate_head(buf: &[u8]) -> (r: HeadStatus)
    ensures
        r == locate_head_spec(buf@),
        r matches HeadStatus::Complete(n) ==> 4 <= n <= buf@.len() && n <= MAX_HEAD,
{
    let n = buf.len();
    let window = if n <= MAX_HEAD {
        buf
    } else {
        slice_subrange(buf, 0, MAX_HEAD)
    };
    let pat: [u8; 4] = [CR, LF, CR, LF];
    assert(pat@ =~= blank_line());
    match find(window, &pat) {
        Some(i) => {
            proof {
                lemma_first_occurrence_is_first(window@, blank_line());
            }
            HeadStatus::Complete(i + 4)
        },
        None => if n >= MAX_HEAD {
            HeadStatus::TooLong
        } else {
            HeadStatus::Incomplete
        },
    }
}

/// The kinds of byte that the grammar tells apart.
#[derive(Debug, Clone, Copy, PartialEq, Eq, Structural)]
pub enum CharClass {
    /// A character of a method or of a header name.
    Token,
    /// A printing ASCII character; no space.
    Visible,
    /// A character of a header value.
    Field,
    /// A character of a registered host name.
    Host,
}

/// Whether `b` is an ASCII letter or digit.
pub open spec fn is_alphanumeric(b: u8) -> bool {
    (48 <= b <= 57) || (65 <= b <= 90) || (97 <= b <= 122)
}

/// Whether the byte `b` belongs to `class`.
pub open spec fn in_class(class: CharClass, b: u8) -> bool {
    match class {
        CharClass::Token => is_alphanumeric(b) || b == 33 || (35 <= b <= 39) || b == 42 || b == 43
            || b == 45 || b == 46 || b == 94 || b == 95 || b == 96 || b == 124 || b == 126,
        CharClass::Visible => 33 <= b <= 126,
        CharClass::Field => b == HTAB || (32 <= b <= 126) || b >= 128,
        CharClass::Host => is_alphanumeric(b) || b == 45 || b == 46 || b == 95,
    }
}

/// Whether every byte of `s` belongs to `class`.
pub open spec fn all_in_class(class: CharClass, s: Seq<u8>) -> bool {
    forall|i: int| 0 <= i < s.len() ==> in_class(class, #[trigger] s[i])
}

/// Whether the byte `b` belongs to `class`.
pub fn has_class(class: CharClass, b: u8) -> (r: bool)
    ensures
        r == in_class(class, b),
{
    let alphanumeric = (48 <= b && b <= 57) || (65 <= b && b <= 90) || (97 <= b && b <= 122);
    match class {
        CharClass::Token => alphanumeric || b == 33 || (35 <= b && b <= 39) || b == 42 || b == 43
            || b == 45 || b == 46 || b == 94 || b == 95 || b == 96 || b == 124 || b == 126,
        CharClass::Visible => 33 <= b && b <= 126,
        CharClass::Field => b == HTAB || (32 <= b && b <= 126) || b >= 128,
        CharClass::Host => alphanumeric || b == 45 || b == 46 || b == 95,
    }
}

/// Whether every byte of `s` belongs to `class`.
pub fn only_class(class: CharClass, s: &[u8]) -> (r: bool)
    ensures
        r == all_in_class(class, s@),
{
    let n = s.len();
    let mut i: usize = 0;
    while i < n
        invariant
            n == s@.len(),
            i <= n,
            forall|j: int| 0 <= j < i ==> in_class(class, #[trigger] s@[j]),
        decreases n - i,
    {
        if !has_class(class, s[i]) {
            return false;
        }
        i += 1;
    }
    true
}

/// Whether `version` names HTTP/1.0 or HTTP/1.1.
pub open spec fn version_ok(version: Seq<u8>) -> bool {
    version == "HTTP/1.1".spec_bytes() || version == "HTTP/1.0".spec_bytes()
}

/// Method and target of a request line `method SP target SP version`.
pub open spec fn parse_request_line_spec(line: Seq<u8>) -> Option<(Seq<u8>, Seq<u8>)> {
    match split_first(line, seq![SP]) {
        Some((method, rest)) => match split_first(rest, seq![SP]) {
            Some((target, version)) => if method.len() > 0 && all_in_class(
                CharClass::Token,
                method,
            ) && target.len() > 0 && all_in_class(CharClass::Visible, target) && version_ok(
                version,
            ) {
                Some((method, target))
            } else {
                None
            },
            None => None,
        },
        None => None,
    }
}

/// Parses a request line into method and target.
pub fn parse_request_line(line: &[u8]) -> (r: Option<(&[u8], &[u8])>)
    ensures
        match r {
            Some((method, target)) => parse_request_line_spec(line@) == Some((method@, target@)),
            None => parse_request_line_spec(line@) is None,
        },
{
    let (method, rest) = match split_byte(line, SP) {
        Some(parts) => parts,
        None => { return None; },
    };
    let (target, version) = match split_byte(rest, SP) {
        Some(parts) => parts,
        None => { return None; },
    };
    let version_known = equal(version, "HTTP/1.1".as_bytes()) || equal(
        version,
        "HTTP/1.0".as_bytes(),
    );
    if method.len() > 0 && only_class(CharClass::Token, method) && target.len() > 0 && only_class(
        CharClass::Visible,
        target,
    ) && version_known {
        Some((method, target))
    } else {
        None
    }
}

/// Name and value of a header line `name: value`; the value without the blanks
/// around it.
pub open spec fn parse_header_line_spec(line: Seq<u8>) -> Option<(Seq<u8>, Seq<u8>)> {
    match split_first(line, seq![COLON]) {
        Some((name, value)) => if name.len() > 0 && all_in_class(CharClass::Token, name)
            && all_in_class(CharClass::Field, value) {
            Some((name, trim(value)))
        } else {
            None
        },
        None => None,
    }
}

/// Parses a header line into name and value.
pub fn parse_header_line(line: &[u8]) -> (r: Option<(&[u8], &[u8])>)
    ensures
        match r {
            Some((name, value)) => parse_header_line_spec(line@) == Some((name@, value@)),
            None => parse_header_line_spec(line@) is None,
        },
{
    let (name, value) = match split_byte(line, COLON) {
        Some(parts) => parts,
        None => { return None; },
    };
    if name.len() > 0 && only_class(CharClass::Token, name) && only_class(CharClass::Field, value) {
        Some((name, trim_blanks(value)))
    } else {
        None
    }
}

/// Whether `name` is the header name `Proxy-Authorization`, in any case.
pub open spec fn is_proxy_authorization(name: Seq<u8>) -> bool {
    lower_seq(name) == lower_seq("proxy-authorization".spec_bytes())
}

/// The header block: lines that each end in CRLF, closed by an empty line with
/// nothing behind it. `None` where it is malformed; otherwise the value of the
/// first `Proxy-Authorization` header, if there is one.
#[verifier::opaque]
pub open spec fn parse_headers_spec(block: Seq<u8>) -> Option<Option<Seq<u8>>>
    decreases block.len(),
{
    match split_first(block, crlf()) {
        None => None,
        Some((line, more)) => if line.len() == 0 {
            if more.len() == 0 {
                Some(None)
            } else {
                None
            }
        } else if more.len() < block.len() {
            match (parse_header_line_spec(line), parse_headers_spec(more)) {
                (Some((name, value)), Some(later)) => Some(
                    if is_proxy_authorization(name) {
                        Some(value)
                    } else {
                        later
                    },
                ),
                _ => None,
            }
        } else {
            None
        },
    }
}

/// What a header block gives when `found` was seen before it.
pub open spec fn earlier_wins(found: Option<Seq<u8>>, later: Option<Option<Seq<u8>>>) -> Option<
    Option<Seq<u8>>,
> {
    match later {
        Some(value) => Some(
            if found is Some {
                found
            } else {
                value
            },
        ),
        None => None,
    }
}

/// The view of an optional byte slice.
pub open spec fn slice_view(s: Option<&[u8]>) -> Option<Seq<u8>> {
    match s {
        Some(x) => Some(x@),
        None => None,
    }
}

/// Parses the header block and finds the first `Proxy-Authorization` value.
pub fn parse_headers(block: &[u8]) -> (r: Option<Option<&[u8]>>)
    ensures
        match r {
            Some(found) => parse_headers_spec(block@) == Some(slice_view(found)),
            None => parse_headers_spec(block@) is None,
        },
{
    let pat: [u8; 2] = [CR, LF];
    assert(pat@ =~= crlf());
    let mut found: Option<&[u8]> = None;
    let mut rest = block;
    loop
        invariant
            pat@ == crlf(),
            parse_headers_spec(block@) == earlier_wins(
                slice_view(found),
                parse_headers_spec(rest@),
            ),
        decreases rest@.len(),
    {
        proof {
            reveal_with_fuel(parse_headers_spec, 1);
        }
        let (line, more) = match split_once(rest, &pat) {
            Some(parts) => parts,
            None => { return None; },
        };
        proof {
            lemma_split_first_shorter(rest@, crlf());
        }
        if line.len() == 0 {
            if more.len() == 0 {
                return Some(found);
            } else {
                return None;
            }
        }
        let (name, value) = match parse_header_line(line) {
            Some(parts) => parts,
            None => { return None; },
        };
        if found.is_none() && eq_ignore_case(name, "proxy-authorization".as_bytes()) {
            found = Some(value);
        }
        rest = more;
    }
}

/// Whether `host` can be a registered name: 1 to 255 characters of host names.
pub open spec fn valid_name(host: Seq<u8>) -> bool {
    1 <= host.len() <= 255 && all_in_class(CharClass::Host, host)
}

/// The port behind a host: `default_port` where nothing follows, the number
/// where `:` and a number up to 65535 follow.
pub open spec fn port_suffix_spec(rest: Seq<u8>, default_port: Option<int>) -> Option<int> {
    if rest.len() == 0 {
        default_port
    } else if rest[0] == COLON {
        parse_decimal_spec(rest.subrange(1, rest.len() as int), 65535)
    } else {
        None
    }
}

/// Host and port of an authority `host[:port]`. An IPv6 address stands in
/// square brackets, and the host is then the address without them. Where the
/// port is missing, `default_port` takes its place, if there is one.
pub open spec fn parse_authority_spec(a: Seq<u8>, default_port: Option<int>) -> Option<
    (Seq<u8>, int),
> {
    if a.len() > 0 && a[0] == LEFT_BRACKET {
        match split_first(a.subrange(1, a.len() as int), seq![RIGHT_BRACKET]) {
            Some((host, rest)) => match (
                parse_ipv6_spec(host),
                port_suffix_spec(rest, default_port),
            ) {
                (Some(_), Some(port)) => Some((host, port)),
                _ => None,
            },
            None => None,
        }
    } else {
        match split_first(a, seq![COLON]) {
            Some((host, digits)) => match parse_decimal_spec(digits, 65535) {
                Some(port) => if valid_name(host) {
                    Some((host, port))
                } else {
                    None
                },
                None => None,
            },
            None => match default_port {
                Some(port) => if valid_name(a) {
                    Some((a, port))
                } else {
                    None
                },
                None => None,
            },
        }
    }
}

/// Whether `host` can be a registered name.
pub fn is_valid_name(host: &[u8]) -> (r: bool)
    ensures
        r == valid_name(host@),
{
    1 <= host.len() && host.len() <= 255 && only_class(CharClass::Host, host)
}

/// The port as a number of the specification.
pub open spec fn port_view(port: Option<u16>) -> Option<int> {
    match port {
        Some(p) => Some(p as int),
        None => None,
    }
}

/// Parses a port number.
pub fn parse_port(digits: &[u8]) -> (r: Option<u16>)
    ensures
        port_view(r) == parse_decimal_spec(digits@, 65535),
{
    match parse_decimal(digits, 65535) {
        Some(p) => Some(p as u16),
        None => None,
    }
}

/// Parses what follows a host.
pub fn port_suffix(rest: &[u8], default_port: Option<u16>) -> (r: Option<u16>)
    ensures
        port_view(r) == port_suffix_spec(rest@, port_view(default_port)),
{
    if rest.len() == 0 {
        default_port
    } else if rest[0] == COLON {
        parse_port(slice_subrange(rest, 1, rest.len()))
    } else {
        None
    }
}

/// Parses an authority into host and port.
pub fn parse_authority(a: &[u8], default_port: Option<u16>) -> (r: Option<(&[u8], u16)>)
    ensures
        match r {
            Some((host, port)) => parse_authority_spec(a@, port_view(default_port)) == Some(
                (host@, port as int),
            ),
            None => parse_authority_spec(a@, port_view(default_port)) is None,
        },
{
    if a.len() > 0 && a[0] == LEFT_BRACKET {
        let inner = slice_subrange(a, 1, a.len());
        let (host, rest) = match split_byte(inner, RIGHT_BRACKET) {
            Some(parts) => parts,
            None => { return None; },
        };
        if parse_ipv6(host).is_none() {
            return None;
        }
        match port_suffix(rest, default_port) {
            Some(port) => Some((host, port)),
            None => None,
        }
    } else {
        match split_byte(a, COLON) {
            Some((host, digits)) => {
                match parse_port(digits) {
                    Some(port) => if is_valid_name(host) {
                        Some((host, port))
                    } else {
                        None
                    },
                    None => None,
                }
            },
            None => {
                match default_port {
                    Some(port) => if is_valid_name(a) {
                        Some((a, port))
                    } else {
                        None
                    },
                    None => None,
                }
            },
        }
    }
}

/// What stands in `s` before the first byte `b`; all of `s` where there is none.
pub open spec fn before_byte(s: Seq<u8>, b: u8) -> Seq<u8> {
    match split_first(s, seq![b]) {
        Some((head, _)) => head,
        None => s,
    }
}

/// What stands in `s` before the first byte `b`.
pub fn until_byte(s: &[u8], b: u8) -> (r: &[u8])
    ensures
        r@ == before_byte(s@, b),
{
    match split_byte(s, b) {
        Some((head, _)) => head,
        None => s,
    }
}

/// The authority at the start of what follows the scheme: it ends before the
/// first `/`, `?` or `#`.
pub open spec fn authority_of(rest: Seq<u8>) -> Seq<u8> {
    before_byte(before_byte(before_byte(rest, 47), 63), 35)
}

/// Host and port of a target in absolute form, `http://host[:port]...`; the
/// port is 80 where none is given.
pub open spec fn parse_absolute_spec(target: Seq<u8>) -> Option<(Seq<u8>, int)> {
    let scheme = "http://".spec_bytes();
    if target.len() >= scheme.len() && lower_seq(target.subrange(0, scheme.len() as int))
        == lower_seq(scheme) {
        parse_authority_spec(
            authority_of(target.subrange(scheme.len() as int, target.len() as int)),
            Some(80int),
        )
    } else {
        None
    }
}

/// Parses a target in absolute form into host and port.
pub fn parse_absolute(target: &[u8]) -> (r: Option<(&[u8], u16)>)
    ensures
        match r {
            Some((host, port)) => parse_absolute_spec(target@) == Some((host@, port as int)),
            None => parse_absolute_spec(target@) is None,
        },
{
    let scheme = "http://".as_bytes();
    let n = scheme.len();
    if target.len() >= n && eq_ignore_case(slice_subrange(target, 0, n), scheme) {
        let rest = slice_subrange(target, n, target.len());
        let authority = until_byte(until_byte(until_byte(rest, 47), 63), 35);
        parse_authority(authority, Some(80))
    } else {
        None
    }
}

/// How the client wants its bytes carried.
#[derive(Debug, Clone, Copy, PartialEq, Eq, Structural)]
pub enum Method {
    /// `CONNECT`: an opaque tunnel; nothing of the request goes upstream.
    Connect,
    /// Any other method: the request itself goes upstream as it came.
    Forward,
}

/// A parsed proxy request.
#[derive(Debug, Clone, PartialEq, Eq)]
pub struct ProxyRequest {
    pub method: Method,
    /// The host as the request wrote it: a name, an IPv4 address, or an IPv6
    /// address without its brackets.
    pub target_host: Vec<u8>,
    pub target_port: u16,
    /// The value of the `Proxy-Authorization` header, if the request has one.
    pub proxy_authorization: Option<Vec<u8>>,
}

/// A proxy request as plain values.
#[verifier::ext_equal]
pub ghost struct RequestView {
    pub method: Method,
    pub host: Seq<u8>,
    pub port: u16,
    pub authorization: Option<Seq<u8>>,
}

impl View for ProxyRequest {
    type V = RequestView;

    open spec fn view(&self) -> RequestView {
        RequestView {
            method: self.method,
            host: self.target_host@,
            port: self.target_port,
            authorization: match self.proxy_authorization {
                Some(v) => Some(v@),
                None => None,
            },
        }
    }
}

/// The request that the head `head` makes, where it is well-formed: a request
/// line, header lines, and an empty line, each ended by CRLF. `CONNECT` takes a
/// target `host:port`; any other method takes a target in absolute form.
pub open spec fn parse_head_spec(head: Seq<u8>) -> Option<RequestView> {
    match split_first(head, crlf()) {
        Some((line, block)) => match (parse_request_line_spec(line), parse_headers_spec(block)) {
            (Some((method, target)), Some(authorization)) => {
                let connect = method == "CONNECT".spec_bytes();
                let place = if connect {
                    parse_authority_spec(target, None)
                } else {
                    parse_absolute_spec(target)
                };
                match place {
                    Some((host, port)) => Some(
                        RequestView {
                            method: if connect {
                                Method::Connect
                            } else {
                                Method::Forward
                            },
                            host,
                            port: port as u16,
                            authorization,
                        },
                    ),
                    None => None,
                }
            },
            _ => None,
        },
        None => None,
    }
}

/// Parses the head of a proxy request. Anything that is not well-formed is a
/// `ProtocolViolation`.
pub fn parse_head(head: &[u8]) -> (r: Result<ProxyRequest, ProxyError>)
    ensures
        match r {
            Ok(request) => parse_head_spec(head@) == Some(request@),
            Err(e) => e == ProxyError::ProtocolViolation && parse_head_spec(head@) is None,
        },
{
    let pat: [u8; 2] = [CR, LF];
    assert(pat@ =~= crlf());
    let (line, block) = match split_once(head, &pat) {
        Some(parts) => parts,
        None => { return Err(ProxyError::ProtocolViolation); },
    };
    let (method, target) = match parse_request_line(line) {
        Some(parts) => parts,
        None => { return Err(ProxyError::ProtocolViolation); },
    };
    let authorization = match parse_headers(block) {
        Some(found) => found,
        None => { return Err(ProxyError::ProtocolViolation); },
    };
    let connect = equal(method, "CONNECT".as_bytes());
    let place = if connect {
        parse_authority(target, None)
    } else {
        parse_absolute(target)
    };
    match place {
        Some((host, port)) => Ok(
            ProxyRequest {
                method: if connect {
                    Method::Connect
                } else {
                    Method::Forward
                },
                target_host: slice_to_vec(host),
                target_port: port,
                proxy_authorization: match authorization {
                    Some(value) => Some(slice_to_vec(value)),
                    None => None,
                },
            },
        ),
        None => Err(ProxyError::ProtocolViolation),
    }
}

/// Whether a line break stands in `s` at index `p`.
pub open spec fn crlf_at(s: Seq<u8>, p: int) -> bool {
    0 <= p && p + 2 <= s.len() && s[p] == CR && s[p + 1] == LF
}

/// Whether an empty line stands in the header block `s` at index `p`: a line
/// break at the start of the block or directly behind another line break.
pub open spec fn empty_line_at(s: Seq<u8>, p: int) -> bool {
    crlf_at(s, p) && (p == 0 || crlf_at(s, p - 2))
}

/// Occurrences of the line break and of the blank line, byte by byte.
pub proof fn lemma_crlf_at(s: Seq<u8>, p: int)
    ensures
        occurs_at(s, crlf(), p) == crlf_at(s, p),
        occurs_at(s, blank_line(), p) == (crlf_at(s, p) && crlf_at(s, p + 2)),
{
    if 0 <= p && p + 2 <= s.len() {
        let w = s.subrange(p, p + 2);
        if crlf_at(s, p) {
            assert(w =~= crlf());
        } else if w == crlf() {
            assert(w[0] == CR && w[1] == LF);
        }
    }
    if 0 <= p && p + 4 <= s.len() {
        let w = s.subrange(p, p + 4);
        if crlf_at(s, p) && crlf_at(s, p + 2) {
            assert(w =~= blank_line());
        } else if w == blank_line() {
            assert(w[0] == CR && w[1] == LF && w[2] == CR && w[3] == LF);
        }
    }
}

/// Where the first line of `s` ends at `k` and is not empty, an empty line of
/// `s` is an empty line of what follows the first line.
pub proof fn lemma_empty_line_shifts(s: Seq<u8>, k: int, p: int)
    requires
        is_first_occurrence(s, crlf(), k),
        k >= 1,
        empty_line_at(s, p),
    ensures
        p >= k + 2,
        empty_line_at(s.subrange(k + 2, s.len() as int), p - (k + 2)),
{
    let more = s.subrange(k + 2, s.len() as int);
    lemma_crlf_at(s, k);
    lemma_crlf_at(s, p);
    lemma_crlf_at(s, p - 2);
    assert(p >= k);
    assert(p != 0);
    assert(p - 2 >= k);
    assert(p - 2 != k + 1);
    let q = p - (k + 2);
    assert(more[q] == s[p] && more[q + 1] == s[p + 1]);
    if p - 2 > k {
        assert(more[q - 2] == s[p - 2] && more[q - 1] == s[p - 1]);
    }
}

/// A line break behind the first `n` bytes of `s` is a line break of `s`.
pub proof fn lemma_crlf_in_tail(s: Seq<u8>, n: int, q: int)
    requires
        0 <= n <= s.len(),
        crlf_at(s.subrange(n, s.len() as int), q),
    ensures
        crlf_at(s, q + n),
{
    let more = s.subrange(n, s.len() as int);
    assert(more[q] == s[q + n] && more[q + 1] == s[q + n + 1]);
}

/// What a well-formed header block is made of. Its first line ends at the
/// index that is returned. Where that line is empty, nothing follows it;
/// where it is not, a well-formed header block does.
pub proof fn lemma_headers_shape(block: Seq<u8>) -> (k: int)
    requires
        parse_headers_spec(block) is Some,
    ensures
        is_first_occurrence(block, crlf(), k),
        k == 0 ==> block.len() == 2,
        k > 0 ==> parse_headers_spec(block.subrange(k + 2, block.len() as int)) is Some,
{
    reveal_with_fuel(parse_headers_spec, 1);
    lemma_first_occurrence_is_first(block, crlf());
    lemma_split_first_shorter(block, crlf());
    first_occurrence(block, crlf())->0
}

/// What a well-formed head is made of: a request line, which ends at the
/// index that is returned, and a well-formed header block behind it.
pub proof fn lemma_head_shape(head: Seq<u8>) -> (j: int)
    requires
        parse_head_spec(head) is Some,
    ensures
        is_first_occurrence(head, crlf(), j),
        parse_headers_spec(head.subrange(j + 2, head.len() as int)) is Some,
{
    lemma_first_occurrence_is_first(head, crlf());
    first_occurrence(head, crlf())->0
}

/// A well-formed header block ends in a line break, and its only empty line
/// is its last line.
pub proof fn lemma_headers_end(block: Seq<u8>)
    requires
        parse_headers_spec(block) is Some,
    ensures
        block.len() >= 2,
        crlf_at(block, block.len() - 2),
        block.len() == 2 || crlf_at(block, block.len() - 4),
        forall|p: int| empty_line_at(block, p) ==> p == block.len() - 2,
    decreases block.len(),
{
    let k = lemma_headers_shape(block);
    lemma_crlf_at(block, k);
    if k > 0 {
        let more = block.subrange(k + 2, block.len() as int);
        lemma_headers_end(more);
        lemma_crlf_in_tail(block, k + 2, more.len() - 2);
        if more.len() > 2 {
            lemma_crlf_in_tail(block, k + 2, more.len() - 4);
        }
        assert forall|p: int| empty_line_at(block, p) implies p == block.len() - 2 by {
            lemma_empty_line_shifts(block, k, p);
        }
    }
}

/// A well-formed head ends with its first blank line: the head that
/// `locate_head` cuts off a buffer is all of it that `parse_head` can accept.
pub proof fn lemma_head_ends_at_first_blank_line(head: Seq<u8>)
    requires
        parse_head_spec(head) is Some,
    ensures
        head.len() >= 4,
        first_occurrence(head, blank_line()) == Some(head.len() - 4),
        head.len() <= MAX_HEAD ==> locate_head_spec(head) == HeadStatus::Complete(
            head.len() as usize,
        ),
{
    let j = lemma_head_shape(head);
    lemma_headers_end(head.subrange(j + 2, head.len() as int));
    lemma_blank_line_is_last(head, j);
}

/// Where the first line of `s` ends at `j` and the only empty line behind it
/// is the last line of `s`, the first blank line of `s` is its end.
pub proof fn lemma_blank_line_is_last(s: Seq<u8>, j: int)
    requires
        is_first_occurrence(s, crlf(), j),
        ({
            let block = s.subrange(j + 2, s.len() as int);
            &&& block.len() >= 2
            &&& crlf_at(block, block.len() - 2)
            &&& block.len() == 2 || crlf_at(block, block.len() - 4)
            &&& forall|p: int| empty_line_at(block, p) ==> p == block.len() - 2
        }),
    ensures
        s.len() >= 4,
        first_occurrence(s, blank_line()) == Some(s.len() - 4),
{
    let block = s.subrange(j + 2, s.len() as int);
    let end = s.len() - 4;
    lemma_crlf_at(s, j);
    assert(forall|t: int| 0 <= t < block.len() ==> block[t] == s[j + 2 + t]);
    assert(crlf_at(s, end + 2)) by {
        assert(crlf_at(block, block.len() - 2));
    }
    assert(crlf_at(s, end)) by {
        if block.len() > 2 {
            assert(crlf_at(block, block.len() - 4));
        }
    }
    lemma_crlf_at(s, end);
    assert forall|p: int| 0 <= p < end implies !occurs_at(s, blank_line(), p) by {
        lemma_crlf_at(s, p);
        if occurs_at(s, blank_line(), p) {
            assert(p >= j);
            assert(p != j + 1);
            let q = p - j;
            assert(block[q] == s[p + 2] && block[q + 1] == s[p + 3]);
            if p > j {
                assert(block[q - 2] == s[p] && block[q - 1] == s[p + 1]);
            }
            assert(empty_line_at(block, q));
        }
    }
    lemma_first_occurrence_found(s, blank_line(), end);
}

/// The Base64 text in a header value `Basic <text>`: the scheme in any case, a
/// space, and the text with any blanks around it taken off.
pub open spec fn basic_token_spec(value: Seq<u8>) -> Option<Seq<u8>> {
    let scheme = "basic".spec_bytes();
    if value.len() > scheme.len() && lower_seq(value.subrange(0, scheme.len() as int))
        == lower_seq(scheme) && value[scheme.len() as int] == SP {
        Some(trim(value.subrange(scheme.len() as int, value.len() as int)))
    } else {
        None
    }
}

/// Whether a request with the header value `authorization` may use a proxy
/// that is configured with `credentials`: always where the credentials are
/// empty; else only where the header is `Basic` with the Base64 text of the
/// credential blob.
pub open spec fn authorized_spec(credentials: Credentials, authorization: Option<Seq<u8>>) -> bool {
    credentials.is_empty_spec() || match authorization {
        Some(value) => match basic_token_spec(value) {
            Some(token) => decode_spec(token) == Some(credentials.blob()),
            None => false,
        },
        None => false,
    }
}

/// The Base64 text in a header value `Basic <text>`.
pub fn basic_token(value: &[u8]) -> (r: Option<&[u8]>)
    ensures
        slice_view(r) == basic_token_spec(value@),
{
    let scheme = "basic".as_bytes();
    let n = scheme.len();
    if value.len() > n && eq_ignore_case(slice_subrange(value, 0, n), scheme) && value[n] == SP {
        let rest = slice_subrange(value, n, value.len());
        Some(trim_blanks(rest))
    } else {
        None
    }
}

/// Checks the client's authorization against the configured credentials.
pub fn authorized(credentials: &Credentials, request: &ProxyRequest) -> (r: bool)
    ensures
        r == authorized_spec(*credentials, request@.authorization),
{
    if credentials.is_empty() {
        return true;
    }
    let value = match &request.proxy_authorization {
        Some(v) => v,
        None => { return false; },
    };
    let token = match basic_token(value.as_slice()) {
        Some(t) => t,
        None => { return false; },
    };
    match decode(token) {
        Some(shown) => {
            let blob = credentials.to_vec();
            equal(shown.as_slice(), blob.as_slice())
        },
        None => false,
    }
}

/// The statuses that the proxy itself answers with.
#[derive(Debug, Clone, Copy, PartialEq, Eq, Structural)]
pub enum Status {
    /// 200: the tunnel that `CONNECT` asked for stands.
    ConnectionEstablished,
    /// 400: the request was malformed or too long.
    BadRequest,
    /// 407: the client did not show the configured credentials.
    ProxyAuthenticationRequired,
    /// 502: the SOCKS5 server could not be reached or refused.
    BadGateway,
    /// 504: the target could not be reached in time.
    GatewayTimeout,
}

impl Status {
    /// The status code.
    pub open spec fn code_spec(self) -> u16 {
        match self {
            Status::ConnectionEstablished => 200,
            Status::BadRequest => 400,
            Status::ProxyAuthenticationRequired => 407,
            Status::BadGateway => 502,
            Status::GatewayTimeout => 504,
        }
    }

    /// The reason phrase.
    pub open spec fn phrase_spec(self) -> Seq<u8> {
        match self {
            Status::ConnectionEstablished => "Connection Established".spec_bytes(),
            Status::BadRequest => "Bad Request".spec_bytes(),
            Status::ProxyAuthenticationRequired => "Proxy Authentication Required".spec_bytes(),
            Status::BadGateway => "Bad Gateway".spec_bytes(),
            Status::GatewayTimeout => "Gateway Timeout".spec_bytes(),
        }
    }

    /// The status for an error code, as far as the proxy uses it.
    pub open spec fn of_code(code: u16) -> Option<Status> {
        if code == 200 {
            Some(Status::ConnectionEstablished)
        } else if code == 400 {
            Some(Status::BadRequest)
        } else if code == 407 {
            Some(Status::ProxyAuthenticationRequired)
        } else if code == 502 {
            Some(Status::BadGateway)
        } else if code == 504 {
            Some(Status::GatewayTimeout)
        } else {
            None
        }
    }

    /// The status that tells the client of `error`, where it is told anything.
    pub open spec fn for_error_spec(error: ProxyError) -> Option<Status> {
        match error.http_status_spec() {
            Some(code) => Self::of_code(code),
            None => None,
        }
    }

    /// The status code.
    pub fn code(&self) -> (r: u16)
        ensures
            r == self.code_spec(),
    {
        match self {
            Status::ConnectionEstablished => 200,
            Status::BadRequest => 400,
            Status::ProxyAuthenticationRequired => 407,
            Status::BadGateway => 502,
            Status::GatewayTimeout => 504,
        }
    }

    /// The reason phrase.
    pub fn phrase(&self) -> (r: &'static [u8])
        ensures
            r@ == self.phrase_spec(),
    {
        match self {
            Status::ConnectionEstablished => "Connection Established".as_bytes(),
            Status::BadRequest => "Bad Request".as_bytes(),
            Status::ProxyAuthenticationRequired => "Proxy Authentication Required".as_bytes(),
            Status::BadGateway => "Bad Gateway".as_bytes(),
            Status::GatewayTimeout => "Gateway Timeout".as_bytes(),
        }
    }

    /// The status that tells the client of `error`; `None` where the client is
    /// told nothing.
    pub fn for_error(error: &ProxyError) -> (r: Option<Status>)
        ensures
            r == Self::for_error_spec(*error),
            r matches Some(s) ==> error.http_status_spec() == Some(s.code_spec()),
            r is None ==> error.http_status_spec() is None,
    {
        match error.http_status() {
            Some(400) => Some(Status::BadRequest),
            Some(407) => Some(Status::ProxyAuthenticationRequired),
            Some(504) => Some(Status::GatewayTimeout),
            Some(_) => Some(Status::BadGateway),
            None => None,
        }
    }
}

/// The three decimal digits of a status code.
pub open spec fn status_digits(code: u16) -> Seq<u8> {
    seq![(48 + code / 100 % 10) as u8, (48 + code / 10 % 10) as u8, (48 + code % 10) as u8]
}

/// The response that carries `status`: the status line `HTTP/1.1 <code>
/// <phrase>` and an empty header block.
#[verifier::opaque]
pub open spec fn response_spec(status: Status) -> Seq<u8> {
    "HTTP/1.1 ".spec_bytes() + status_digits(status.code_spec()) + seq![SP] + status.phrase_spec()
        + blank_line()
}

/// The response that carries `status`.
pub fn response(status: Status) -> (r: Vec<u8>)
    ensures
        r@ == response_spec(status),
{
    reveal(response_spec);
    let code = status.code();
    let mut out: Vec<u8> = Vec::new();
    out.extend_from_slice("HTTP/1.1 ".as_bytes());
    out.push((48 + code / 100 % 10) as u8);
    out.push((48 + code / 10 % 10) as u8);
    out.push((48 + code % 10) as u8);
    out.push(SP);
    out.extend_from_slice(status.phrase());
    out.push(CR);
    out.push(LF);
    out.push(CR);
    out.push(LF);
    assert(out@ =~= response_spec(status));
    out
}

/// The response that answers `error`, where the client is told of it.
pub open spec fn error_response_spec(error: ProxyError) -> Option<Seq<u8>> {
    match Status::for_error_spec(error) {
        Some(status) => Some(response_spec(status)),
        None => None,
    }
}

/// Every response starts with `HTTP/1.1 `, the three digits of its status code
/// and a space: responses of different status differ, and no response to an
/// error reads `200`.
pub proof fn lemma_response_shows_status(status: Status)
    ensures
        response_spec(status).len() >= 13,
        response_spec(status).subrange(0, 9) == seq![72u8, 84, 84, 80, 47, 49, 46, 49, 32],
        response_spec(status).subrange(9, 12) == status_digits(status.code_spec()),
        response_spec(status)[12] == SP,
{
    reveal(response_spec);
    let prefix = "HTTP/1.1 ";
    reveal_strlit("HTTP/1.1 ");
    broadcast use is_ascii_spec_bytes;
    assert(is_ascii(prefix)) by {
        assert(forall|i: int| 0 <= i < prefix@.len() ==> (prefix@[i] as nat) < 128);
    }
    let p = prefix.spec_bytes();
    assert(p =~= seq![72u8, 84, 84, 80, 47, 49, 46, 49, 32]);
    let r = response_spec(status);
    assert(r.subrange(0, 9) =~= p);
    assert(r.subrange(9, 12) =~= status_digits(status.code_spec()));
}

} // verus!
