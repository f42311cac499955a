//! Port numbers out of address strings.
use vstd::arithmetic::power::*;
use vstd::prelude::*;

verus! {

/// Port that is announced where an address names none.
pub const DEFAULT_PORT: i64 = 20000;

/// What follows the last `:` of `addr`, or all of it if there is none.
pub open spec fn after_last_colon(addr: Seq<char>) -> Seq<char>
    decreases addr.len(),
{
    if addr.len() == 0 || addr.last() == ':' {
        Seq::empty()
    } else {
        after_last_colon(addr.drop_last()).push(addr.last())
    }
}

/// `c` is a decimal digit.
pub open spec fn is_digit(c: char) -> bool {
    '0' <= c <= '9'
}

/// Every character is a decimal digit.
pub open spec fn all_digits(s: Seq<char>) -> bool {
    forall|i: int| 0 <= i < s.len() ==> is_digit(#[trigger] s[i])
}

/// The number that decimal digits stand for.
pub open spec fn decimal(s: Seq<char>) -> int
    decreases s.len(),
{
    if s.len() == 0 {
        0
    } else {
        decimal(s.drop_last()) * 10 + (s.last() as int - '0' as int)
    }
}

/// The integer that `s` spells: an optional sign followed by one or more decimal
/// digits and nothing else, of a value that fits an `i64`.
pub open spec fn parsed_integer(s: Seq<char>) -> Option<i64> {
    let signed = s.len() > 0 && (s[0] == '+' || s[0] == '-');
    let digits = if signed {
        s.skip(1)
    } else {
        s
    };
    let value = if signed && s[0] == '-' {
        -decimal(digits)
    } else {
        decimal(digits)
    };
    if digits.len() > 0 && all_digits(digits) && i64::MIN <= value <= i64::MAX {
        Some(value as i64)
    } else {
        None
    }
}

/// The port that `addr` names, or [`DEFAULT_PORT`].
pub open spec fn port_of(addr: Seq<char>) -> i64 {
    match parsed_integer(after_last_colon(addr)) {
        Some(port) => port,
        None => DEFAULT_PORT,
    }
}

/// More digits never make a number smaller.
proof fn lemma_decimal_grows(s: Seq<char>, n: int)
    requires
        all_digits(s),
        0 <= n <= s.len(),
    ensures
        0 <= decimal(s.take(n)) <= decimal(s),
    decreases s.len() - n,
{
    if n < s.len() {
        lemma_decimal_grows(s, n + 1);
        assert(s.take(n + 1).drop_last() =~= s.take(n));
        assert(is_digit(s[n]));
        lemma_decimal_nonnegative(s.take(n));
    } else {
        assert(s.take(n) =~= s);
        lemma_decimal_nonnegative(s);
    }
}

/// Digits stand for a number that is not negative.
proof fn lemma_decimal_nonnegative(s: Seq<char>)
    requires
        all_digits(s),
    ensures
        0 <= decimal(s),
    decreases s.len(),
{
    if s.len() > 0 {
        assert(is_digit(s[s.len() - 1]));
        assert forall|i: int| 0 <= i < s.drop_last().len() implies is_digit(
            #[trigger] s.drop_last()[i],
        ) by {
            assert(is_digit(s[i]));
        }
        lemma_decimal_nonnegative(s.drop_last());
    }
}

/// What follows the last colon, once it is known where that is.
proof fn lemma_after_last_colon(addr: Seq<char>, start: int)
    requires
        0 <= start <= addr.len(),
        start == 0 || addr[start - 1] == ':',
        forall|i: int| start <= i < addr.len() ==> #[trigger] addr[i] != ':',
    ensures
        after_last_colon(addr) == addr.skip(start),
    decreases addr.len(),
{
    if start < addr.len() {
        lemma_after_last_colon(addr.drop_last(), start);
        assert(addr.skip(start) =~= addr.drop_last().skip(start).push(addr.last()));
    } else {
        assert(addr.skip(start) =~= Seq::empty());
    }
}

/// Offset of what follows the last `:` of `addr`.
fn last_segment_start(addr: &str) -> (start: usize)
    ensures
        start <= addr@.len(),
        after_last_colon(addr@) == addr@.skip(start as int),
{
    let len: usize = addr.unicode_len();
    let mut start: usize = len;
    while start > 0 && addr.get_char(start - 1) != ':'
        invariant
            start <= len,
            len == addr@.len(),
            forall|i: int| start <= i < len ==> #[trigger] addr@[i] != ':',
        decreases start,
    {
        start = start - 1;
    }
    proof {
        lemma_after_last_colon(addr@, start as int);
    }
    start
}

/// Reads the digits of `addr` from `start` on, as a number no larger than `limit`.
fn parse_digits(addr: &str, start: usize, limit: i128) -> (value: Option<i128>)
    requires
        start <= addr@.len(),
        0 <= limit <= 0x1_0000_0000_0000_0000,
    ensures
        match value {
            Some(v) => {
                &&& start < addr@.len()
                &&& all_digits(addr@.skip(start as int))
                &&& v == decimal(addr@.skip(start as int))
                &&& 0 <= v <= limit
            },
            None => {
                ||| start == addr@.len()
                ||| !all_digits(addr@.skip(start as int))
                ||| decimal(addr@.skip(start as int)) > limit
            },
        },
{
    let ghost digits = addr@.skip(start as int);
    let len: usize = addr.unicode_len();
    if start == len {
        return None;
    }
    let mut value: i128 = 0;
    let mut i: usize = start;
    while i < len
        invariant
            start <= i <= len,
            len == addr@.len(),
            digits == addr@.skip(start as int),
            0 <= limit <= 0x1_0000_0000_0000_0000,
            0 <= value <= limit,
            value == decimal(digits.take(i - start)),
            forall|j: int| 0 <= j < i - start ==> is_digit(#[trigger] digits[j]),
        decreases len - i,
    {
        let c: char = addr.get_char(i);
        assert(c == digits[i - start]);
        if c < '0' || c > '9' {
            return None;
        }
        let next: i128 = value * 10 + (c as u32 - '0' as u32) as i128;
        proof {
            assert(digits.take(i - start + 1).drop_last() =~= digits.take(i - start));
            assert(next == decimal(digits.take(i - start + 1)));
        }
        if next > limit {
            proof {
                if all_digits(digits) {
                    lemma_decimal_grows(digits, i - start + 1);
                }
            }
            return None;
        }
        value = next;
        i = i + 1;
    }
    assert(digits.take(i - start) =~= digits);
    Some(value)
}

/// The port at the end of an address such as `0.0.0.0:8001`, or [`DEFAULT_PORT`]
/// where what follows the last colon is no integer.
pub fn port_from_addr(addr: &str) -> (port: i64)
    ensures
        port == port_of(addr@),
{
    let start: usize = last_segment_start(addr);
    let ghost segment = addr@.skip(start as int);
    let len: usize = addr.unicode_len();
    if start == len {
        return DEFAULT_PORT;
    }
    let first: char = addr.get_char(start);
    assert(first == segment[0]);
    if first == '-' {
        assert(segment.skip(1) =~= addr@.skip(start + 1));
        match parse_digits(addr, start + 1, 0x8000_0000_0000_0000) {
            Some(value) => (-value) as i64,
            None => DEFAULT_PORT,
        }
    } else if first == '+' {
        assert(segment.skip(1) =~= addr@.skip(start + 1));
        match parse_digits(addr, start + 1, 0x7fff_ffff_ffff_ffff) {
            Some(value) => value as i64,
            None => DEFAULT_PORT,
        }
    } else {
        match parse_digits(addr, start, 0x7fff_ffff_ffff_ffff) {
            Some(value) => value as i64,
            None => DEFAULT_PORT,
        }
    }
}

/// The port of `host:digits` is the number that the digits spell, whatever the host.
pub proof fn law_port_follows_the_last_colon(host: Seq<char>, digits: Seq<char>)
    requires
        digits.len() > 0,
        all_digits(digits),
        decimal(digits) <= i64::MAX,
    ensures
        port_of(host + seq![':'] + digits) == decimal(digits),
{
    let addr = host + seq![':'] + digits;
    assert forall|i: int| host.len() + 1 <= i < addr.len() implies #[trigger] addr[i] != ':' by {
        assert(is_digit(digits[i - host.len() - 1]));
    }
    lemma_after_last_colon(addr, host.len() as int + 1);
    assert(addr.skip(host.len() as int + 1) =~= digits);
    lemma_decimal_nonnegative(digits);
    assert(is_digit(digits[0]));
}

/// Decimal notation is positional: a digit in front of others counts its value times ten to
/// the number of digits behind it. No digits are zero.
pub proof fn law_decimal_is_positional(first: char, rest: Seq<char>)
    ensures
        decimal(Seq::empty()) == 0,
        decimal(seq![first] + rest) == (first as int - 48) * pow(10, rest.len()) + decimal(rest),
    decreases rest.len(),
{
    let all = seq![first] + rest;
    if rest.len() == 0 {
        lemma_pow0(10);
        assert(all.drop_last() =~= Seq::empty());
        assert(decimal(all.drop_last()) == 0);
        assert(all.last() == first);
        assert(rest =~= Seq::empty());
    } else {
        law_decimal_is_positional(first, rest.drop_last());
        assert(all.drop_last() =~= seq![first] + rest.drop_last());
        assert(all.last() == rest.last());
        let value = first as int - 48;
        let power = pow(10, rest.drop_last().len());
        let behind = decimal(rest.drop_last());
        let last = rest.last() as int - 48;
        lemma_pow1(10);
        lemma_pow_adds(10, rest.drop_last().len(), 1);
        assert(pow(10, rest.len()) == power * 10);
        assert((value * power + behind) * 10 + last == value * (power * 10) + (behind * 10 + last))
            by (nonlinear_arith);
    }
}

/// An address is looked at behind its last colon only.
pub proof fn law_only_the_last_segment_matters(host: Seq<char>, tail: Seq<char>)
    requires
        forall|i: int| 0 <= i < tail.len() ==> #[trigger] tail[i] != ':',
    ensures
        port_of(host + seq![':'] + tail) == port_of(tail),
{
    let addr = host + seq![':'] + tail;
    lemma_after_last_colon(addr, host.len() as int + 1);
    lemma_after_last_colon(tail, 0);
    assert(addr.skip(host.len() as int + 1) =~= tail);
    assert(tail.skip(0) =~= tail);
}

/// Decimal digits name the port that they spell, with a plus in front as without, and with a
/// minus in front the negative of it; what does not fit 64 bits with a sign is no port.
pub proof fn law_digits_spell_the_port(digits: Seq<char>)
    requires
        digits.len() > 0,
        forall|i: int| 0 <= i < digits.len() ==> '0' <= #[trigger] digits[i] <= '9',
    ensures
        0 <= decimal(digits),
        decimal(digits) <= 0x7fff_ffff_ffff_ffff ==> {
            &&& port_of(digits) == decimal(digits)
            &&& port_of(seq!['+'] + digits) == decimal(digits)
        },
        decimal(digits) > 0x7fff_ffff_ffff_ffff ==> {
            &&& port_of(digits) == 20000
            &&& port_of(seq!['+'] + digits) == 20000
        },
        port_of(seq!['-'] + digits) == (if decimal(digits) <= 0x8000_0000_0000_0000 {
            -decimal(digits)
        } else {
            20000
        }),
{
    let plus = seq!['+'] + digits;
    let minus = seq!['-'] + digits;
    assert(all_digits(digits));
    lemma_decimal_nonnegative(digits);
    assert('0' <= digits[0] <= '9');
    assert forall|i: int| 0 <= i < plus.len() implies #[trigger] plus[i] != ':' && minus[i]
        != ':' by {
        if i > 0 {
            assert(plus[i] == digits[i - 1] && minus[i] == digits[i - 1]);
        }
    }
    assert forall|i: int| 0 <= i < minus.len() implies #[trigger] minus[i] != ':' by {
        assert(plus[i] != ':');
    }
    lemma_after_last_colon(digits, 0);
    lemma_after_last_colon(plus, 0);
    lemma_after_last_colon(minus, 0);
    assert(digits.skip(0) =~= digits);
    assert(plus.skip(0) =~= plus);
    assert(minus.skip(0) =~= minus);
    assert(plus.skip(1) =~= digits);
    assert(minus.skip(1) =~= digits);
}

/// Anything else names no port, and the default is announced: nothing, a sign alone, and
/// whatever holds a character that is no digit but for a sign in front.
pub proof fn law_what_is_no_number_is_no_port(tail: Seq<char>, i: int)
    requires
        forall|j: int| 0 <= j < tail.len() ==> #[trigger] tail[j] != ':',
        tail.len() == 0 || tail.len() == 1 && (tail[0] == '+' || tail[0] == '-') || 0 <= i
            < tail.len() && !('0' <= tail[i] <= '9') && (i > 0 || tail[0] != '+' && tail[0] != '-'),
    ensures
        port_of(tail) == 20000,
{
    lemma_after_last_colon(tail, 0);
    assert(tail.skip(0) =~= tail);
    if tail.len() > 0 && (tail[0] == '+' || tail[0] == '-') {
        let digits = tail.skip(1);
        if digits.len() > 0 {
            assert(digits[i - 1] == tail[i]);
            assert(!is_digit(digits[i - 1]));
        }
    } else if tail.len() > 0 {
        assert(!is_digit(tail[i]));
    }
}

} // verus!
