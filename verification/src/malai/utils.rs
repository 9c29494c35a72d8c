//! Argument helpers shared by the HTTP forwarding tools.

use vstd::prelude::*;
use crate::keys::generate_secret_key;
use crate::text::{chars_of, concat, owned};

verus! {

/// Whether `c` is an ASCII decimal digit.
pub open spec fn is_digit(c: char) -> bool {
    '0' <= c && c <= '9'
}

/// The value of a string of decimal digits.
pub open spec fn digits_value(s: Seq<char>) -> nat
    decreases s.len(),
{
    if s.len() == 0 {
        0
    } else {
        10 * digits_value(s.drop_last()) + ((s.last() as u32 - '0' as u32) as nat)
    }
}

/// The digits of a number text: the text after an optional leading `+`.
pub open spec fn unsigned_digits(s: Seq<char>) -> Seq<char> {
    if s.len() > 0 && s[0] == '+' {
        s.drop_first()
    } else {
        s
    }
}

/// What `str::parse::<u16>` gives: an optional `+` followed by at least one
/// ASCII digit and nothing else, whose value fits in 16 bits.
pub open spec fn parse_u16_spec(s: Seq<char>) -> Option<u16> {
    let d = unsigned_digits(s);
    if d.len() > 0 && (forall|i: int| 0 <= i < d.len() ==> is_digit(#[trigger] d[i])) && digits_value(d)
        <= 65535 {
        Some(digits_value(d) as u16)
    } else {
        None
    }
}

proof fn lemma_digits_value_push(s: Seq<char>, c: char)
    requires
        is_digit(c),
    ensures
        digits_value(s.push(c)) == 10 * digits_value(s) + ((c as u32 - '0' as u32) as nat),
{
    assert(s.push(c).drop_last() =~= s);
}

/// Parses a port number as `str::parse::<u16>` does.
pub fn parse_u16(text: &str) -> (r: Option<u16>)
    ensures
        r == parse_u16_spec(text@),
{
    let v = chars_of(text);
    let mut start: usize = 0;
    if v.len() > 0 && v[0] == '+' {
        start = 1;
    }
    let ghost d = unsigned_digits(text@);
    assert(d =~= v@.skip(start as int));
    if start >= v.len() {
        return None;
    }
    let mut value: u32 = 0;
    let mut i: usize = start;
    while i < v.len()
        invariant
            start <= i <= v.len(),
            v@ == text@,
            d == v@.skip(start as int),
            d == unsigned_digits(text@),
            d.len() > 0,
            value as nat == digits_value(v@.subrange(start as int, i as int)),
            value <= 65535,
            forall|j: int| 0 <= j < i - start ==> is_digit(#[trigger] d[j]),
        decreases v.len() - i,
    {
        let c = v[i];
        if !('0' <= c && c <= '9') {
            assert(!is_digit(d[i - start]));
            return None;
        }
        proof {
            lemma_digits_value_push(v@.subrange(start as int, i as int), c);
            assert(v@.subrange(start as int, i as int).push(c) =~= v@.subrange(start as int, i + 1));
        }
        let digit = (c as u32) - ('0' as u32);
        let next = value * 10 + digit;
        if next > 65535 {
            proof {
                assert(d.take(i + 1 - start) =~= v@.subrange(start as int, i + 1));
                if forall|j: int| 0 <= j < d.len() ==> is_digit(#[trigger] d[j]) {
                    lemma_prefix_value_grows(d, (i + 1 - start) as int);
                }
            }
            return None;
        }
        value = next;
        i = i + 1;
    }
    assert(v@.subrange(start as int, v.len() as int) =~= d);
    Some(value as u16)
}

/// A longer digit prefix never has a smaller value.
proof fn lemma_prefix_value_grows(d: Seq<char>, k: int)
    requires
        0 <= k <= d.len(),
        forall|i: int| 0 <= i < d.len() ==> is_digit(#[trigger] d[i]),
    ensures
        digits_value(d.take(k)) <= digits_value(d),
    decreases d.len() - k,
{
    if k < d.len() {
        lemma_prefix_value_grows(d, k + 1);
        assert(d.take(k + 1).drop_last() =~= d.take(k));
    } else {
        assert(d.take(k) =~= d);
    }
}

/// The ASCII digit of `d` (below 10).
pub open spec fn digit_char(d: nat) -> char {
    ((d + '0' as u32) as u32) as char
}

/// The decimal text of `n` (what `to_string` prints for an unsigned number).
pub open spec fn decimal(n: nat) -> Seq<char>
    decreases n,
{
    if n < 10 {
        seq![digit_char(n)]
    } else {
        decimal(n / 10).push(digit_char(n % 10))
    }
}

proof fn lemma_decimal_digits(n: nat)
    ensures
        decimal(n).len() > 0,
        decimal(n)[0] != '+',
        forall|i: int| 0 <= i < decimal(n).len() ==> is_digit(#[trigger] decimal(n)[i]),
        digits_value(decimal(n)) == n,
    decreases n,
{
    let c = digit_char(n % 10);
    assert(c as u32 == n % 10 + 48);
    if n >= 10 {
        lemma_decimal_digits(n / 10);
        let d = decimal(n / 10);
        assert(decimal(n) == d.push(c));
        assert(decimal(n).drop_last() =~= d);
        assert(forall|i: int| 0 <= i < d.len() ==> decimal(n)[i] == d[i]);
        lemma_digits_value_push(d, c);
        assert(10 * (n / 10) + n % 10 == n) by (nonlinear_arith);
    } else {
        assert(decimal(n) =~= Seq::<char>::empty().push(c));
        lemma_digits_value_push(Seq::<char>::empty(), c);
    }
}

/// The decimal text of every 16-bit number parses back to it.
pub proof fn lemma_parse_u16_decimal(p: u16)
    ensures
        parse_u16_spec(decimal(p as nat)) == Some(p),
{
    lemma_decimal_digits(p as nat);
    assert(unsigned_digits(decimal(p as nat)) == decimal(p as nat));
}

/// What [`parse_host_port`] returns: the first argument as host and the
/// second as port, or the error message.
pub open spec fn host_port_spec(args: Seq<Seq<char>>) -> Result<(Seq<char>, u16), Seq<char>> {
    if args.len() < 2 {
        Err("Usage: <host> <port>"@)
    } else {
        match parse_u16_spec(args[1]) {
            Some(port) => Ok((args[0], port)),
            None => Err("Invalid port: "@ + args[1]),
        }
    }
}

/// A host followed by a printed port (and any further arguments) parses
/// back to that host and port.
pub proof fn lemma_host_port_roundtrip(host: Seq<char>, port: u16, rest: Seq<Seq<char>>)
    ensures
        host_port_spec(seq![host, decimal(port as nat)] + rest) == Ok::<(Seq<char>, u16), Seq<char>>((host, port)),
{
    let args = seq![host, decimal(port as nat)] + rest;
    assert(args[0] == host && args[1] == decimal(port as nat));
    lemma_parse_u16_decimal(port);
}

/// Parses the command-line arguments `<host> <port>`.
pub fn parse_host_port(args: &[String]) -> (r: Result<(String, u16), String>)
    ensures
        match r {
            Ok((host, port)) => host_port_spec(args@.map_values(|a: String| a@)) == Ok::<
                (Seq<char>, u16),
                Seq<char>,
            >((host@, port)),
            Err(m) => host_port_spec(args@.map_values(|a: String| a@)) == Err::<(Seq<char>, u16), Seq<char>>(
                m@,
            ),
        },
{
    let ghost av = args@.map_values(|a: String| a@);
    if args.len() < 2 {
        return Err(owned("Usage: <host> <port>"));
    }
    assert(av[0] == args@[0]@ && av[1] == args@[1]@);
    match parse_u16(args[1].as_str()) {
        Some(port) => Ok((args[0].clone(), port)),
        None => Err(concat("Invalid port: ", args[1].as_str())),
    }
}

/// A secret key for the tools: a freshly generated one (keys are not kept
/// between runs).  It always succeeds.
pub fn get_or_generate_key() -> (r: Result<fastn_id52::SecretKey, String>)
    ensures
        r is Ok,
{
    Ok(generate_secret_key())
}

} // verus!
