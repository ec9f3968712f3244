//! IPv4 endpoints as text: dotted-decimal addresses, `ip:port` socket
//! strings, and the reader for one line of a host list.

use crate::text::{
    all_digits, append_decimal, ascii_bytes, bytes_free_of, decimal, digits_value, field_views,
    free_of, is_digit, is_digit_char, lemma_ascii_bytes_concat, lemma_cut_unique,
    lemma_decimal_bytes, lemma_decimal_digits, lemma_decimal_injective, lemma_digits_free_of,
    lemma_split_push, lemma_split_single, parse_digits, split, split_fields,
};
use vstd::prelude::*;
use vstd::slice::slice_subrange;
use vstd::string::{StringExecFns, StringSliceAdditionalSpecFns};
use vstd::utf8::{encode_utf8, is_ascii_chars, is_ascii_chars_encode_utf8};

verus! {

/// An IPv4 address, as its four octets from the most significant down.
#[derive(Clone, Copy, Debug, PartialEq, Eq, Structural, Hash)]
pub struct Ipv4Address {
    pub a: u8,
    pub b: u8,
    pub c: u8,
    pub d: u8,
}

/// The dotted-decimal text of an address, as in `192.168.1.12`.
pub open spec fn dotted(ip: Ipv4Address) -> Seq<char> {
    dot_joined(
        decimal(ip.a as nat),
        decimal(ip.b as nat),
        decimal(ip.c as nat),
        decimal(ip.d as nat),
    )
}

/// The text used to dial an endpoint: the address, a colon, the port.
pub open spec fn socket_text(ip: Ipv4Address, port: u16) -> Seq<char> {
    dotted(ip) + seq![':'] + decimal(port as nat)
}

/// The text `a.b.c.d` for any four parts.
pub open spec fn dot_joined(a: Seq<char>, b: Seq<char>, c: Seq<char>, d: Seq<char>) -> Seq<char> {
    a + seq!['.'] + b + seq!['.'] + c + seq!['.'] + d
}

/// Four parts joined by dots are the first part, a dot, and the rest.
proof fn lemma_dot_joined_cut(a: Seq<char>, b: Seq<char>, c: Seq<char>, d: Seq<char>)
    ensures
        dot_joined(a, b, c, d) == a + seq!['.'] + (b + seq!['.'] + (c + seq!['.'] + d)),
{
    assert(dot_joined(a, b, c, d) =~= a + seq!['.'] + (b + seq!['.'] + (c + seq!['.'] + d)));
}

/// Texts joined by dots tell their parts, as long as no part but the
/// last holds a dot.
proof fn lemma_dot_joined_unique(
    a1: Seq<char>,
    b1: Seq<char>,
    c1: Seq<char>,
    d1: Seq<char>,
    a2: Seq<char>,
    b2: Seq<char>,
    c2: Seq<char>,
    d2: Seq<char>,
)
    requires
        dot_joined(a1, b1, c1, d1) == dot_joined(a2, b2, c2, d2),
        free_of(a1, '.'),
        free_of(b1, '.'),
        free_of(c1, '.'),
        free_of(a2, '.'),
        free_of(b2, '.'),
        free_of(c2, '.'),
    ensures
        a1 == a2,
        b1 == b2,
        c1 == c2,
        d1 == d2,
{
    lemma_dot_joined_cut(a1, b1, c1, d1);
    lemma_dot_joined_cut(a2, b2, c2, d2);
    let s1 = c1 + seq!['.'] + d1;
    let s2 = c2 + seq!['.'] + d2;
    lemma_cut_unique(a1, b1 + seq!['.'] + s1, a2, b2 + seq!['.'] + s2, '.');
    lemma_cut_unique(b1, s1, b2, s2, '.');
    lemma_cut_unique(c1, d1, c2, d2, '.');
}

/// Whether every character of `text` is a decimal digit or a dot.
pub open spec fn digits_and_dots(text: Seq<char>) -> bool {
    forall|i: int| 0 <= i < text.len() ==> is_digit_char(#[trigger] text[i]) || text[i] == '.'
}

/// Dotted-decimal text holds digits and dots, and nothing else.
pub proof fn lemma_dotted_chars(ip: Ipv4Address)
    ensures
        digits_and_dots(dotted(ip)),
{
    lemma_decimal_digits(ip.a as nat);
    lemma_decimal_digits(ip.b as nat);
    lemma_decimal_digits(ip.c as nat);
    lemma_decimal_digits(ip.d as nat);
    let a = decimal(ip.a as nat);
    let b = decimal(ip.b as nat);
    let c = decimal(ip.c as nat);
    let d = decimal(ip.d as nat);
    let t = dotted(ip);
    assert forall|i: int| 0 <= i < t.len() implies is_digit_char(#[trigger] t[i]) || t[i]
        == '.' by {
        if i < a.len() {
            assert(t[i] == a[i]);
        } else if i == a.len() {
        } else if i < a.len() + 1 + b.len() {
            assert(t[i] == b[i - a.len() - 1]);
        } else if i == a.len() + 1 + b.len() {
        } else if i < a.len() + 1 + b.len() + 1 + c.len() {
            assert(t[i] == c[i - a.len() - 1 - b.len() - 1]);
        } else if i == a.len() + 1 + b.len() + 1 + c.len() {
        } else {
            assert(t[i] == d[i - a.len() - 1 - b.len() - 1 - c.len() - 1]);
        }
    }
}

/// Dotted-decimal text holds no character other than digits and dots.
pub proof fn lemma_dotted_free_of(ip: Ipv4Address, sep: char)
    requires
        !is_digit_char(sep),
        sep != '.',
    ensures
        free_of(dotted(ip), sep),
{
    lemma_dotted_chars(ip);
    let t = dotted(ip);
    assert forall|i: int| 0 <= i < t.len() implies #[trigger] t[i] != sep by {
        assert(is_digit_char(t[i]) || t[i] == '.');
    }
}

/// Different addresses have different dotted-decimal texts.
pub proof fn lemma_dotted_injective(ip1: Ipv4Address, ip2: Ipv4Address)
    requires
        dotted(ip1) == dotted(ip2),
    ensures
        ip1 == ip2,
{
    lemma_decimal_digits(ip1.a as nat);
    lemma_decimal_digits(ip1.b as nat);
    lemma_decimal_digits(ip1.c as nat);
    lemma_decimal_digits(ip2.a as nat);
    lemma_decimal_digits(ip2.b as nat);
    lemma_decimal_digits(ip2.c as nat);
    lemma_digits_free_of(decimal(ip1.a as nat), '.');
    lemma_digits_free_of(decimal(ip1.b as nat), '.');
    lemma_digits_free_of(decimal(ip1.c as nat), '.');
    lemma_digits_free_of(decimal(ip2.a as nat), '.');
    lemma_digits_free_of(decimal(ip2.b as nat), '.');
    lemma_digits_free_of(decimal(ip2.c as nat), '.');
    lemma_dot_joined_unique(
        decimal(ip1.a as nat),
        decimal(ip1.b as nat),
        decimal(ip1.c as nat),
        decimal(ip1.d as nat),
        decimal(ip2.a as nat),
        decimal(ip2.b as nat),
        decimal(ip2.c as nat),
        decimal(ip2.d as nat),
    );
    lemma_decimal_injective(ip1.a as nat, ip2.a as nat);
    lemma_decimal_injective(ip1.b as nat, ip2.b as nat);
    lemma_decimal_injective(ip1.c as nat, ip2.c as nat);
    lemma_decimal_injective(ip1.d as nat, ip2.d as nat);
}

/// Different endpoints have different socket texts.
pub proof fn lemma_socket_text_injective(
    ip1: Ipv4Address,
    port1: u16,
    ip2: Ipv4Address,
    port2: u16,
)
    requires
        socket_text(ip1, port1) == socket_text(ip2, port2),
    ensures
        ip1 == ip2,
        port1 == port2,
{
    lemma_dotted_free_of(ip1, ':');
    lemma_dotted_free_of(ip2, ':');
    lemma_cut_unique(
        dotted(ip1),
        decimal(port1 as nat),
        dotted(ip2),
        decimal(port2 as nat),
        ':',
    );
    lemma_dotted_injective(ip1, ip2);
    lemma_decimal_injective(port1 as nat, port2 as nat);
}

/// What one octet of an address may look like: one to three digits, no
/// leading zero on a longer numeral, and a value of at most 255.
pub open spec fn parse_octet_spec(s: Seq<u8>) -> Option<u8> {
    if 1 <= s.len() <= 3 && all_digits(s) && (s.len() == 1 || s[0] != 48) && digits_value(s)
        <= 255 {
        Some(digits_value(s) as u8)
    } else {
        None
    }
}

/// An address is exactly four octets separated by dots.
pub open spec fn parse_ipv4_spec(s: Seq<u8>) -> Option<Ipv4Address> {
    let parts = split(s, 46);
    if parts.len() == 4 && parse_octet_spec(parts[0]).is_some() && parse_octet_spec(
        parts[1],
    ).is_some() && parse_octet_spec(parts[2]).is_some() && parse_octet_spec(parts[3]).is_some() {
        Some(
            Ipv4Address {
                a: parse_octet_spec(parts[0]).unwrap(),
                b: parse_octet_spec(parts[1]).unwrap(),
                c: parse_octet_spec(parts[2]).unwrap(),
                d: parse_octet_spec(parts[3]).unwrap(),
            },
        )
    } else {
        None
    }
}

/// The digits of a port numeral once an optional leading `+` is removed.
pub open spec fn port_digits(s: Seq<u8>) -> Seq<u8> {
    if s.len() > 0 && s[0] == 43 {
        s.subrange(1, s.len() as int)
    } else {
        s
    }
}

/// A port is an optional `+`, then one or more digits whose value fits in
/// sixteen bits. Leading zeros are accepted.
pub open spec fn parse_port_spec(s: Seq<u8>) -> Option<u16> {
    let digits = port_digits(s);
    if digits.len() > 0 && all_digits(digits) && digits_value(digits) <= 65535 {
        Some(digits_value(digits) as u16)
    } else {
        None
    }
}

/// A host line names an endpoint when it splits at `:` into exactly two
/// fields, the first an address and the second a port.
pub open spec fn parse_host_spec(line: Seq<u8>) -> Option<(Ipv4Address, u16)> {
    let fields = split(line, 58);
    if fields.len() == 2 && parse_ipv4_spec(fields[0]).is_some() && parse_port_spec(
        fields[1],
    ).is_some() {
        Some((parse_ipv4_spec(fields[0]).unwrap(), parse_port_spec(fields[1]).unwrap()))
    } else {
        None
    }
}

/// A string of digit bytes holds no byte that is not a digit.
proof fn lemma_digit_bytes_free_of(s: Seq<u8>, sep: u8)
    requires
        all_digits(s),
        !is_digit(sep),
    ensures
        bytes_free_of(s, sep),
{
    assert forall|i: int| 0 <= i < s.len() implies #[trigger] s[i] != sep by {
        assert(is_digit(s[i]));
    }
}

/// The numeral of an octet reads back as the octet.
pub proof fn lemma_octet_reads_back(v: u8)
    ensures
        parse_octet_spec(ascii_bytes(decimal(v as nat))) == Some(v),
{
    lemma_decimal_bytes(v as nat);
}

/// The numeral of a port reads back as the port.
pub proof fn lemma_port_reads_back(port: u16)
    ensures
        parse_port_spec(ascii_bytes(decimal(port as nat))) == Some(port),
{
    lemma_decimal_bytes(port as nat);
    let b = ascii_bytes(decimal(port as nat));
    assert(is_digit(b[0]));
    assert(port_digits(b) == b);
}

/// The dotted-decimal text of an address reads back as the address.
pub proof fn lemma_dotted_reads_back(ip: Ipv4Address)
    ensures
        parse_ipv4_spec(ascii_bytes(dotted(ip))) == Some(ip),
        bytes_free_of(ascii_bytes(dotted(ip)), 58),
{
    let dot = seq!['.'];
    let a = decimal(ip.a as nat);
    let b = decimal(ip.b as nat);
    let c = decimal(ip.c as nat);
    let d = decimal(ip.d as nat);
    let ba = ascii_bytes(a);
    let bb = ascii_bytes(b);
    let bc = ascii_bytes(c);
    let bd = ascii_bytes(d);
    lemma_decimal_bytes(ip.a as nat);
    lemma_decimal_bytes(ip.b as nat);
    lemma_decimal_bytes(ip.c as nat);
    lemma_decimal_bytes(ip.d as nat);
    lemma_digit_bytes_free_of(ba, 46);
    lemma_digit_bytes_free_of(bb, 46);
    lemma_digit_bytes_free_of(bc, 46);
    lemma_digit_bytes_free_of(bd, 46);
    lemma_digit_bytes_free_of(ba, 58);
    lemma_digit_bytes_free_of(bb, 58);
    lemma_digit_bytes_free_of(bc, 58);
    lemma_digit_bytes_free_of(bd, 58);
    let point = seq![46u8];
    assert(ascii_bytes(dot) =~= point);
    lemma_ascii_bytes_concat(a, dot);
    lemma_ascii_bytes_concat(a + dot, b);
    lemma_ascii_bytes_concat(a + dot + b, dot);
    lemma_ascii_bytes_concat(a + dot + b + dot, c);
    lemma_ascii_bytes_concat(a + dot + b + dot + c, dot);
    lemma_ascii_bytes_concat(a + dot + b + dot + c + dot, d);
    let whole = ascii_bytes(dotted(ip));
    assert(whole == ba + point + bb + point + bc + point + bd);
    lemma_split_single(ba, 46);
    lemma_split_push(ba, bb, 46);
    lemma_split_push(ba + point + bb, bc, 46);
    lemma_split_push(ba + point + bb + point + bc, bd, 46);
    let parts = split(whole, 46);
    assert(parts =~= seq![ba, bb, bc, bd]);
    lemma_octet_reads_back(ip.a);
    lemma_octet_reads_back(ip.b);
    lemma_octet_reads_back(ip.c);
    lemma_octet_reads_back(ip.d);
    lemma_dotted_chars(ip);
    assert forall|i: int| 0 <= i < whole.len() implies #[trigger] whole[i] != 58 by {
        assert(is_digit_char(dotted(ip)[i]) || dotted(ip)[i] == '.');
    }
}

/// Socket text is plain ASCII: digits, dots and one colon.
pub proof fn lemma_socket_text_ascii(ip: Ipv4Address, port: u16)
    ensures
        is_ascii_chars(socket_text(ip, port)),
        encode_utf8(socket_text(ip, port)) == ascii_bytes(socket_text(ip, port)),
{
    let text = socket_text(ip, port);
    let head = dotted(ip);
    let tail = decimal(port as nat);
    lemma_dotted_chars(ip);
    lemma_decimal_digits(port as nat);
    assert forall|i: int| 0 <= i < text.len() implies '\0' <= #[trigger] text[i] <= '\u{7f}' by {
        if i < head.len() {
            assert(text[i] == head[i]);
            assert(is_digit_char(head[i]) || head[i] == '.');
        } else if i == head.len() {
            assert(text[i] == ':');
        } else {
            assert(text[i] == tail[i - head.len() - 1]);
            assert(is_digit_char(tail[i - head.len() - 1]));
        }
    }
    is_ascii_chars_encode_utf8(text);
    assert(encode_utf8(text) =~= ascii_bytes(text));
}

/// What a node dials is what a host list may say: the socket text of an
/// endpoint, written as a line, reads back as that endpoint.
pub proof fn lemma_socket_text_reads_back(ip: Ipv4Address, port: u16)
    ensures
        parse_host_spec(encode_utf8(socket_text(ip, port))) == Some((ip, port)),
{
    lemma_socket_text_ascii(ip, port);
    lemma_dotted_reads_back(ip);
    lemma_port_reads_back(port);
    lemma_decimal_bytes(port as nat);
    let head = ascii_bytes(dotted(ip));
    let tail = ascii_bytes(decimal(port as nat));
    lemma_digit_bytes_free_of(tail, 58);
    assert(ascii_bytes(seq![':']) =~= seq![58u8]);
    lemma_ascii_bytes_concat(dotted(ip), seq![':']);
    lemma_ascii_bytes_concat(dotted(ip) + seq![':'], decimal(port as nat));
    lemma_split_single(head, 58);
    lemma_split_push(head, tail, 58);
    let fields = split(ascii_bytes(socket_text(ip, port)), 58);
    assert(fields =~= seq![head, tail]);
}

/// Read one octet of a dotted-decimal address.
pub fn parse_octet(s: &[u8]) -> (r: Option<u8>)
    ensures
        r == parse_octet_spec(s@),
{
    if s.len() > 3 {
        return None;
    }
    if s.len() > 1 && s[0] == 48 {
        return None;
    }
    match parse_digits(s, 255) {
        Some(v) => Some(v as u8),
        None => None,
    }
}

/// Read a dotted-decimal IPv4 address.
pub fn parse_ipv4(s: &[u8]) -> (r: Option<Ipv4Address>)
    ensures
        r == parse_ipv4_spec(s@),
{
    let parts = split_fields(s, 46);
    if parts.len() != 4 {
        return None;
    }
    assert(field_views(parts@)[0] == parts@[0]@);
    assert(field_views(parts@)[1] == parts@[1]@);
    assert(field_views(parts@)[2] == parts@[2]@);
    assert(field_views(parts@)[3] == parts@[3]@);
    let a = parse_octet(parts[0].as_slice());
    let b = parse_octet(parts[1].as_slice());
    let c = parse_octet(parts[2].as_slice());
    let d = parse_octet(parts[3].as_slice());
    match (a, b, c, d) {
        (Some(a), Some(b), Some(c), Some(d)) => Some(Ipv4Address { a, b, c, d }),
        _ => None,
    }
}

/// Read a port number.
pub fn parse_port(s: &[u8]) -> (r: Option<u16>)
    ensures
        r == parse_port_spec(s@),
{
    let digits = if s.len() > 0 && s[0] == 43 {
        slice_subrange(s, 1, s.len())
    } else {
        s
    };
    match parse_digits(digits, 65535) {
        Some(v) => Some(v as u16),
        None => None,
    }
}

/// Read one line of a host list, `ip:port`.
pub fn parse_host(line: &[u8]) -> (r: Option<(Ipv4Address, u16)>)
    ensures
        r == parse_host_spec(line@),
{
    let fields = split_fields(line, 58);
    if fields.len() != 2 {
        return None;
    }
    assert(field_views(fields@)[0] == fields@[0]@);
    assert(field_views(fields@)[1] == fields@[1]@);
    let ip = parse_ipv4(fields[0].as_slice());
    let port = parse_port(fields[1].as_slice());
    match (ip, port) {
        (Some(ip), Some(port)) => Some((ip, port)),
        _ => None,
    }
}

/// Append the dotted-decimal text of `ip` to `out`.
pub fn append_dotted(out: &mut String, ip: Ipv4Address)
    ensures
        final(out)@ == old(out)@ + dotted(ip),
{
    append_decimal(out, ip.a as u16);
    out.append(".");
    append_decimal(out, ip.b as u16);
    out.append(".");
    append_decimal(out, ip.c as u16);
    out.append(".");
    append_decimal(out, ip.d as u16);
    proof {
        reveal_strlit(".");
        assert("."@ =~= seq!['.']);
        assert(final(out)@ =~= old(out)@ + dotted(ip));
    }
}

/// Append the socket text `ip:port` to `out`.
pub fn append_socket(out: &mut String, ip: Ipv4Address, port: u16)
    ensures
        final(out)@ == old(out)@ + socket_text(ip, port),
{
    append_dotted(out, ip);
    out.append(":");
    append_decimal(out, port);
    proof {
        reveal_strlit(":");
        assert(":"@ =~= seq![':']);
        assert(final(out)@ =~= old(out)@ + socket_text(ip, port));
    }
}

impl Ipv4Address {
    /// The address with the given octets, most significant first.
    pub fn new(a: u8, b: u8, c: u8, d: u8) -> (ip: Self)
        ensures
            ip == (Ipv4Address { a, b, c, d }),
    {
        Ipv4Address { a, b, c, d }
    }

    /// Read an address from dotted-decimal text.
    pub fn parse(text: &str) -> (r: Option<Self>)
        ensures
            r == parse_ipv4_spec(text.spec_bytes()),
    {
        parse_ipv4(text.as_bytes())
    }

    /// The dotted-decimal text of this address.
    pub fn to_string(&self) -> (text: String)
        ensures
            text@ == dotted(*self),
    {
        let mut out = String::new();
        append_dotted(&mut out, *self);
        assert(out@ =~= dotted(*self));
        out
    }
}

} // verus!
