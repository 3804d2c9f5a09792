//! Text: character-level helpers on strings.

use vstd::prelude::*;
use vstd::string::*;
use vstd::utf8::*;

verus! {

/// `String::push`: appends one character.
pub assume_specification[ std::string::String::push ](s: &mut std::string::String, c: char)
    ensures
        final(s)@ == old(s)@.push(c),
;

/// `String::pop`: removes the last character and returns it, or leaves an empty
/// string alone.
pub assume_specification[ std::string::String::pop ](s: &mut std::string::String) -> (c: Option<char>)
    ensures
        old(s)@.len() == 0 ==> c is None && final(s)@ == old(s)@,
        old(s)@.len() > 0 ==> c == Some(old(s)@.last()) && final(s)@ == old(s)@.drop_last(),
;

/// Whether two texts are the same.
pub fn str_eq(a: &str, b: &str) -> (r: bool)
    ensures
        r == (a@ == b@),
{
    let x = a.as_bytes();
    let y = b.as_bytes();
    proof {
        encode_utf8_decode_utf8(a@);
        encode_utf8_decode_utf8(b@);
    }
    if x.len() != y.len() {
        return false;
    }
    let mut i: usize = 0;
    while i < x.len()
        invariant
            x@.len() == y@.len(),
            i <= x@.len(),
            x@ == encode_utf8(a@),
            y@ == encode_utf8(b@),
            forall|j: int| 0 <= j < i ==> x@[j] == y@[j],
        decreases x@.len() - i,
    {
        if x[i] != y[i] {
            return false;
        }
        i = i + 1;
    }
    proof {
        assert(x@ =~= y@);
    }
    true
}

/// The characters of a text.
pub fn chars_of(s: &str) -> (r: Vec<char>)
    ensures
        r@ == s@,
{
    let mut out: Vec<char> = Vec::new();
    for c in it: s.chars()
        invariant
            out@ == it.seq().take(it.index() as int),
            it.seq() == s@,
    {
        out.push(c);
    }
    out
}

/// The text of the characters from `from` up to `to`.
pub fn text_of(chars: &Vec<char>, from: usize, to: usize) -> (r: String)
    requires
        from <= to <= chars@.len(),
    ensures
        r@ == chars@.subrange(from as int, to as int),
{
    let mut out = String::new();
    let mut i: usize = from;
    while i < to
        invariant
            from <= i <= to <= chars@.len(),
            out@ == chars@.subrange(from as int, i as int),
        decreases to - i,
    {
        out.push(chars[i]);
        i = i + 1;
    }
    out
}

pub open spec fn starts_with(s: Seq<char>, prefix: Seq<char>) -> bool {
    s.len() >= prefix.len() && s.subrange(0, prefix.len() as int) == prefix
}

pub open spec fn ends_with(s: Seq<char>, suffix: Seq<char>) -> bool {
    s.len() >= suffix.len() && s.subrange(s.len() - suffix.len(), s.len() as int) == suffix
}

pub fn has_prefix(s: &str, prefix: &str) -> (r: bool)
    ensures
        r == starts_with(s@, prefix@),
{
    let n: usize = s.unicode_len();
    let m: usize = prefix.unicode_len();
    if n < m {
        return false;
    }
    str_eq(s.substring_char(0, m), prefix)
}

pub fn has_suffix(s: &str, suffix: &str) -> (r: bool)
    ensures
        r == ends_with(s@, suffix@),
{
    let n: usize = s.unicode_len();
    let m: usize = suffix.unicode_len();
    if n < m {
        return false;
    }
    str_eq(s.substring_char(n - m, n), suffix)
}

/// The text without a leading `prefix`, or all of it where it has none.
pub open spec fn without_prefix(s: Seq<char>, prefix: Seq<char>) -> Seq<char> {
    if starts_with(s, prefix) {
        s.subrange(prefix.len() as int, s.len() as int)
    } else {
        s
    }
}

pub fn strip_prefix_or_all<'a>(s: &'a str, prefix: &str) -> (r: &'a str)
    ensures
        r@ == without_prefix(s@, prefix@),
{
    if has_prefix(s, prefix) {
        s.substring_char(prefix.unicode_len(), s.unicode_len())
    } else {
        s
    }
}

/// One past the last place where `c` stands, or 0 where it does not occur.
pub open spec fn after_last(s: Seq<char>, c: char) -> int
    decreases s.len(),
{
    if s.len() == 0 {
        0
    } else if s.last() == c {
        s.len() as int
    } else {
        after_last(s.drop_last(), c)
    }
}

pub proof fn lemma_after_last(s: Seq<char>, c: char)
    ensures
        0 <= after_last(s, c) <= s.len(),
        after_last(s, c) > 0 ==> s[after_last(s, c) - 1] == c,
        forall|i: int| after_last(s, c) <= i < s.len() ==> s[i] != c,
    decreases s.len(),
{
    if s.len() > 0 && s.last() != c {
        lemma_after_last(s.drop_last(), c);
        assert forall|i: int| after_last(s, c) <= i < s.len() implies s[i] != c by {
            if i < s.len() - 1 {
                assert(s.drop_last()[i] == s[i]);
            }
        }
    }
}

/// The part of a dotted name behind its last dot.
pub open spec fn last_segment(s: Seq<char>) -> Seq<char> {
    s.subrange(after_last(s, '.'), s.len() as int)
}

/// Finds [`after_last`].
pub fn find_after_last(chars: &Vec<char>, c: char) -> (r: usize)
    ensures
        r == after_last(chars@, c),
{
    let mut n: usize = chars.len();
    proof {
        assert(chars@.subrange(0, n as int) =~= chars@);
    }
    while n > 0
        invariant
            n <= chars@.len(),
            after_last(chars@, c) == after_last(chars@.subrange(0, n as int), c),
        decreases n,
    {
        if chars[n - 1] == c {
            return n;
        }
        n = n - 1;
        proof {
            assert(chars@.subrange(0, n + 1).drop_last() =~= chars@.subrange(0, n as int));
        }
    }
    0
}

pub fn last_segment_text(s: &str) -> (r: String)
    ensures
        r@ == last_segment(s@),
{
    let chars = chars_of(s);
    let from: usize = find_after_last(&chars, '.');
    proof {
        lemma_after_last(s@, '.');
    }
    text_of(&chars, from, chars.len())
}

pub open spec fn is_digit(c: char) -> bool {
    '0' <= c <= '9'
}

/// The number that decimal digits denote.
pub open spec fn decimal_value(s: Seq<char>) -> nat
    decreases s.len(),
{
    if s.len() == 0 {
        0
    } else {
        decimal_value(s.drop_last()) * 10 + (s.last() as nat - '0' as nat) as nat
    }
}

pub open spec fn all_digits(s: Seq<char>) -> bool {
    forall|i: int| 0 <= i < s.len() ==> is_digit(#[trigger] s[i])
}

/// The digits of a decimal number with an optional plus sign.
pub open spec fn decimal_digits(s: Seq<char>) -> Seq<char> {
    if s.len() > 0 && s[0] == '+' {
        s.subrange(1, s.len() as int)
    } else {
        s
    }
}

/// The number a text denotes where it is a decimal number no larger than `max`.
pub open spec fn parse_decimal_spec(s: Seq<char>, max: nat) -> Option<nat> {
    let digits = decimal_digits(s);
    if digits.len() > 0 && all_digits(digits) && decimal_value(digits) <= max {
        Some(decimal_value(digits))
    } else {
        None
    }
}

proof fn lemma_decimal_prefix(s: Seq<char>, n: int)
    requires
        0 <= n <= s.len(),
    ensures
        decimal_value(s.subrange(0, n)) <= decimal_value(s),
    decreases s.len() - n,
{
    if n < s.len() {
        lemma_decimal_prefix(s, n + 1);
        assert(s.subrange(0, n + 1).drop_last() =~= s.subrange(0, n));
    } else {
        assert(s.subrange(0, n) =~= s);
    }
}

/// Parses a decimal number no larger than `max`.
pub fn parse_decimal(s: &str, max: u64) -> (r: Option<u64>)
    ensures
        match parse_decimal_spec(s@, max as nat) {
            Some(v) => r matches Some(n) && n == v,
            None => r is None,
        },
{
    let chars = chars_of(s);
    let start: usize = if chars.len() > 0 && chars[0] == '+' { 1 } else { 0 };
    let ghost digits = decimal_digits(s@);
    proof {
        assert(digits =~= chars@.subrange(start as int, chars@.len() as int));
    }
    if start == chars.len() {
        return None;
    }
    let mut value: u64 = 0;
    let mut i: usize = start;
    while i < chars.len()
        invariant
            start <= i <= chars@.len(),
            start < chars@.len(),
            digits == chars@.subrange(start as int, chars@.len() as int),
            digits == decimal_digits(s@),
            all_digits(digits.subrange(0, i - start)),
            value == decimal_value(digits.subrange(0, i - start)),
            value <= max,
        decreases chars@.len() - i,
    {
        let c: char = chars[i];
        assert(digits[i - start] == c);
        if c < '0' || c > '9' {
            assert(!is_digit(digits[i - start]));
            return None;
        }
        let d: u64 = (c as u64) - ('0' as u64);
        proof {
            let next = digits.subrange(0, i + 1 - start);
            assert(next.drop_last() =~= digits.subrange(0, i - start));
            assert(next.last() == c);
            assert(decimal_value(next) == value * 10 + d);
            lemma_decimal_prefix(digits, i + 1 - start);
        }
        if value > (u64::MAX - d) / 10 {
            proof {
                assert(value * 10 + d > u64::MAX);
            }
            return None;
        }
        value = value * 10 + d;
        if value > max {
            return None;
        }
        proof {
            let next = digits.subrange(0, i + 1 - start);
            assert forall|j: int| 0 <= j < next.len() implies is_digit(#[trigger] next[j]) by {
                if j < i - start {
                    assert(digits.subrange(0, i - start)[j] == next[j]);
                }
            }
        }
        i = i + 1;
    }
    proof {
        assert(digits.subrange(0, i - start) =~= digits);
    }
    Some(value)
}

pub open spec fn digit_char(d: nat) -> char {
    (d + '0' as nat) as char
}

/// The decimal digits of a number.
pub open spec fn decimal_nat(n: nat) -> Seq<char>
    decreases n,
{
    if n < 10 {
        seq![digit_char(n)]
    } else {
        decimal_nat(n / 10).push(digit_char(n % 10))
    }
}

/// A number as it is written out.
pub open spec fn decimal(n: int) -> Seq<char> {
    if n < 0 {
        seq!['-'] + decimal_nat((-n) as nat)
    } else {
        decimal_nat(n as nat)
    }
}

fn push_decimal(out: &mut String, n: u64)
    ensures
        final(out)@ == old(out)@ + decimal_nat(n as nat),
    decreases n,
{
    let ghost before = out@;
    if n >= 10 {
        push_decimal(out, n / 10);
    }
    let d: u8 = (n % 10) as u8;
    let c: char = (d + 48) as char;
    out.push(c);
    proof {
        assert(c == digit_char((n % 10) as nat));
        if n >= 10 {
            assert(out@ =~= before + decimal_nat(n as nat));
        } else {
            assert(n % 10 == n);
            assert(out@ =~= before + decimal_nat(n as nat));
        }
    }
}

/// Writes a natural number out in decimal.
pub fn natural_text(n: u64) -> (r: String)
    ensures
        r@ == decimal(n as int),
{
    let mut out = String::new();
    push_decimal(&mut out, n);
    proof {
        assert(out@ =~= decimal(n as int));
    }
    out
}

/// Writes a number out in decimal.
pub fn decimal_text(n: i64) -> (r: String)
    ensures
        r@ == decimal(n as int),
{
    let mut out = String::new();
    if n < 0 {
        out.push('-');
        let m: u64 = if n == i64::MIN { 0x8000_0000_0000_0000 } else { (-n) as u64 };
        push_decimal(&mut out, m);
    } else {
        push_decimal(&mut out, n as u64);
    }
    proof {
        assert(out@ =~= decimal(n as int));
    }
    out
}

proof fn lemma_decimal_digits_ok(n: nat)
    ensures
        decimal_nat(n).len() > 0,
        all_digits(decimal_nat(n)),
        decimal_value(decimal_nat(n)) == n,
    decreases n,
{
    if n >= 10 {
        lemma_decimal_digits_ok(n / 10);
        let s = decimal_nat(n);
        assert(s.drop_last() =~= decimal_nat(n / 10));
        assert(s.last() as nat == n % 10 + '0' as nat);
        assert forall|i: int| 0 <= i < s.len() implies is_digit(#[trigger] s[i]) by {
            if i < s.len() - 1 {
                assert(s[i] == decimal_nat(n / 10)[i]);
            }
        }
    } else {
        let s = decimal_nat(n);
        assert(s.drop_last() =~= Seq::<char>::empty());
        assert(s.last() as nat == n + '0' as nat);
        assert(decimal_value(s.drop_last()) == 0);
    }
}

/// Writing a number that fits out in decimal and reading it back gives the
/// number.
pub proof fn decimal_round_trip(n: nat, max: nat)
    requires
        n <= max,
    ensures
        parse_decimal_spec(decimal(n as int), max) == Some(n),
{
    lemma_decimal_digits_ok(n);
    assert(is_digit(decimal_nat(n)[0]));
    assert(decimal_digits(decimal_nat(n)) == decimal_nat(n));
}

/// The number a text denotes where it is a decimal number of 32 bits with an
/// optional sign.
pub open spec fn parse_i32_spec(s: Seq<char>) -> Option<i32> {
    if s.len() > 0 && s[0] == '-' {
        let digits = s.skip(1);
        if digits.len() > 0 && all_digits(digits) && decimal_value(digits) <= 0x8000_0000 {
            Some((-(decimal_value(digits) as int)) as i32)
        } else {
            None
        }
    } else {
        match parse_decimal_spec(s, 0x7fff_ffff) {
            Some(n) => Some(n as i32),
            None => None,
        }
    }
}

/// Parses a decimal number of 32 bits with an optional sign.
pub fn parse_i32(s: &str) -> (r: Option<i32>)
    ensures
        r == parse_i32_spec(s@),
{
    let len: usize = s.unicode_len();
    if len > 0 && s.get_char(0) == '-' {
        let digits = s.substring_char(1, len);
        proof {
            assert(digits@ =~= s@.skip(1));
        }
        if len > 1 && digits.get_char(0) == '+' {
            proof {
                assert(!is_digit(digits@[0]));
            }
            return None;
        }
        proof {
            assert(decimal_digits(digits@) == digits@);
        }
        match parse_decimal(digits, 0x8000_0000) {
            Some(n) => {
                let v: i64 = -(n as i64);
                Some(v as i32)
            },
            None => None,
        }
    } else {
        match parse_decimal(s, 0x7fff_ffff) {
            Some(n) => Some(n as i32),
            None => None,
        }
    }
}

/// Writing a number of 32 bits out in decimal and reading it back gives the
/// number.
pub proof fn signed_round_trip(n: i32)
    ensures
        parse_i32_spec(decimal(n as int)) == Some(n),
{
    if n < 0 {
        let m = (-(n as int)) as nat;
        lemma_decimal_digits_ok(m);
        assert(decimal(n as int).skip(1) =~= decimal_nat(m));
    } else {
        decimal_round_trip(n as nat, 0x7fff_ffff);
        lemma_decimal_digits_ok(n as nat);
        assert(is_digit(decimal_nat(n as nat)[0]));
    }
}

/// The port that is used where an address names none.
pub const DEFAULT_PORT: u16 = 25565;

/// The host part of an address: everything before its last colon.
pub open spec fn host_of(addr: Seq<char>) -> Seq<char> {
    let n = after_last(addr, ':');
    if n == 0 {
        addr
    } else {
        addr.subrange(0, n - 1)
    }
}

/// The port an address names, or the default one where it names none that is
/// valid.
pub open spec fn port_of(addr: Seq<char>) -> int {
    let n = after_last(addr, ':');
    if n == 0 {
        DEFAULT_PORT as int
    } else {
        match parse_decimal_spec(addr.subrange(n, addr.len() as int), 65535) {
            Some(port) => port as int,
            None => DEFAULT_PORT as int,
        }
    }
}

/// Splits a server address into host and port.
pub fn split_host_port(addr: &str) -> (r: (String, u16))
    ensures
        r.0@ == host_of(addr@),
        r.1 == port_of(addr@),
{
    let chars = chars_of(addr);
    let n: usize = find_after_last(&chars, ':');
    proof {
        lemma_after_last(addr@, ':');
    }
    if n == 0 {
        return (addr.to_owned(), DEFAULT_PORT);
    }
    let host = text_of(&chars, 0, n - 1);
    let port = text_of(&chars, n, chars.len());
    match parse_decimal(port.as_str(), 65535) {
        Some(port) => (host, port as u16),
        None => (host, DEFAULT_PORT),
    }
}

/// An address made of a host and a port splits into that host and that port,
/// whatever colons the host itself holds.
pub proof fn split_undoes_join(host: Seq<char>, port: u16)
    ensures
        host_of(host.push(':') + decimal(port as int)) == host,
        port_of(host.push(':') + decimal(port as int)) == port,
{
    let digits = decimal_nat(port as nat);
    lemma_decimal_digits_ok(port as nat);
    decimal_round_trip(port as nat, 65535);
    let addr = host.push(':') + digits;
    let n = after_last(addr, ':');
    lemma_after_last(addr, ':');
    assert(addr[host.len() as int] == ':');
    assert forall|i: int| host.len() < i < addr.len() implies addr[i] != ':' by {
        assert(is_digit(digits[i - host.len() - 1]));
    }
    assert(n == host.len() + 1);
    assert(addr.subrange(0, n - 1) =~= host);
    assert(addr.subrange(n, addr.len() as int) =~= digits);
}

/// The last segment of a dotted name is what stands behind its last dot, and all of it
/// where there is no dot.
pub proof fn last_segments_follow_the_last_dot(head: Seq<char>, tail: Seq<char>)
    requires
        !tail.contains('.'),
    ensures
        last_segment(head.push('.') + tail) == tail,
        last_segment(tail) == tail,
{
    let whole = head.push('.') + tail;
    lemma_after_last(whole, '.');
    lemma_after_last(tail, '.');
    assert(whole[head.len() as int] == '.');
    let n = after_last(whole, '.');
    if n > head.len() + 1 {
        assert(whole[n - 1] == tail[n - 1 - head.len() - 1]);
        assert(tail.contains('.'));
    }
    assert(n == head.len() + 1);
    assert(last_segment(whole) =~= tail);
    if after_last(tail, '.') > 0 {
        assert(tail[after_last(tail, '.') - 1] == '.');
    }
    assert(last_segment(tail) =~= tail);
}

/// An address without a colon is a host with the default port, and so is one whose
/// port cannot be read.
pub proof fn addresses_default_their_port(host: Seq<char>, port: Seq<char>)
    requires
        !port.contains(':'),
    ensures
        !host.contains(':') ==> host_of(host) == host && port_of(host) == 25565,
        host_of(host.push(':') + port) == host,
        parse_decimal_spec(port, 65535) is None ==> port_of(host.push(':') + port) == 25565,
{
    lemma_after_last(host, ':');
    if !host.contains(':') && after_last(host, ':') > 0 {
        assert(host[after_last(host, ':') - 1] == ':');
    }
    let whole = host.push(':') + port;
    lemma_after_last(whole, ':');
    assert(whole[host.len() as int] == ':');
    let n = after_last(whole, ':');
    if n > host.len() + 1 {
        assert(whole[n - 1] == port[n - 1 - host.len() - 1]);
        assert(port.contains(':'));
    }
    assert(n == host.len() + 1);
    assert(whole.subrange(0, n - 1) =~= host);
    assert(whole.subrange(n, whole.len() as int) =~= port);
}

/// A prefix and what follows it make up the whole, and a text without the prefix is
/// left whole.
pub proof fn prefixes_and_suffixes_part_a_text(prefix: Seq<char>, rest: Seq<char>)
    ensures
        starts_with(prefix + rest, prefix),
        ends_with(prefix + rest, rest),
        without_prefix(prefix + rest, prefix) == rest,
        !starts_with(rest, prefix) ==> without_prefix(rest, prefix) == rest,
        starts_with(rest, prefix) ==> rest == prefix + without_prefix(rest, prefix),
{
    let whole = prefix + rest;
    assert(whole.subrange(0, prefix.len() as int) =~= prefix);
    assert(whole.subrange(whole.len() - rest.len(), whole.len() as int) =~= rest);
    assert(whole.subrange(prefix.len() as int, whole.len() as int) =~= rest);
    if starts_with(rest, prefix) {
        assert(rest =~= prefix + without_prefix(rest, prefix));
    }
}

/// Every further digit makes a number ten times as large and adds itself; a plus sign
/// in front makes no difference, and nothing else than digits is a number.
pub proof fn decimals_are_read_digit_by_digit(s: Seq<char>, c: char, max: nat)
    ensures
        decimal_value(s.push(c)) == if '0' <= c <= '9' {
            decimal_value(s) * 10 + (c as nat - '0' as nat)
        } else {
            decimal_value(s.push(c)) as int
        },
        parse_decimal_spec(s, max) matches Some(n) ==> n <= max,
        s.len() > 0 && all_digits(s) && decimal_value(s) <= max ==> parse_decimal_spec(s, max)
            == Some(decimal_value(s)) && parse_decimal_spec(seq!['+'] + s, max) == Some(
            decimal_value(s),
        ),
        s.len() > 0 && all_digits(s) && decimal_value(s) > max ==> parse_decimal_spec(s, max)
            is None,
        s.len() > 0 && s[0] != '+' && !all_digits(s) ==> parse_decimal_spec(s, max) is None,
        parse_decimal_spec(Seq::empty(), max) is None,
{
    assert(s.push(c).drop_last() =~= s);
    if s.len() > 0 && all_digits(s) {
        assert(is_digit(s[0]));
        assert((seq!['+'] + s).subrange(1, s.len() as int + 1) =~= s);
    }
}

} // verus!
