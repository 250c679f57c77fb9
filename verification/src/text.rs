//! Numbers and separated fields in text.
use crate::ip::be4_round_trip;
use crate::ip::Ipv4Addr;
use itertools::Itertools;
use vstd::prelude::*;
use vstd::string::StrSliceExecFns;
use vstd::string::StringExecFns;

verus! {

/// The character of a digit below sixteen, in lower case.
pub open spec fn digit_char(d: nat) -> char {
    if d < 10 {
        (48 + d) as char
    } else {
        (87 + d) as char
    }
}

/// The character of a digit below sixteen, in upper case.
pub open spec fn upper_digit_char(d: nat) -> char {
    if d < 10 {
        (48 + d) as char
    } else {
        (55 + d) as char
    }
}

/// A number in decimal without leading zeros.
pub open spec fn decimal(n: nat) -> Seq<char>
    decreases n,
{
    if n < 10 {
        seq![digit_char(n)]
    } else {
        decimal(n / 10).push(digit_char(n % 10))
    }
}

/// A number in lower-case hexadecimal without leading zeros.
pub open spec fn hexadecimal(n: nat) -> Seq<char>
    decreases n,
{
    if n < 16 {
        seq![digit_char(n)]
    } else {
        hexadecimal(n / 16).push(digit_char(n % 16))
    }
}

/// A number in lower-case hexadecimal, with at least two digits.
pub open spec fn hex2(n: nat) -> Seq<char> {
    if n < 16 {
        seq!['0', digit_char(n)]
    } else {
        hexadecimal(n)
    }
}

/// A byte as two upper-case hexadecimal digits.
pub open spec fn byte_hex(b: u8) -> Seq<char> {
    seq![upper_digit_char((b / 16) as nat), upper_digit_char((b % 16) as nat)]
}

pub open spec fn is_digit(c: char) -> bool {
    '0' <= c <= '9'
}

pub open spec fn all_digits(s: Seq<char>) -> bool {
    forall|i: int| 0 <= i < s.len() ==> is_digit(#[trigger] s[i])
}

/// The number that a sequence of decimal digits stands for.
pub open spec fn digits_value(s: Seq<char>) -> nat
    decreases s.len(),
{
    if s.len() == 0 {
        0
    } else {
        (digits_value(s.drop_last()) * 10 + (s.last() as int - 48)) as nat
    }
}

/// What is left of a text after an optional plus sign.
pub open spec fn unsigned_part(s: Seq<char>) -> Seq<char> {
    if s.len() > 0 && s[0] == '+' {
        s.skip(1)
    } else {
        s
    }
}

/// The unsigned number up to `max` that a text stands for: an optional plus
/// sign and at least one digit.
pub open spec fn parsed(s: Seq<char>, max: nat) -> Option<nat> {
    let d = unsigned_part(s);
    if d.len() > 0 && all_digits(d) && digits_value(d) <= max {
        Some(digits_value(d))
    } else {
        None
    }
}

/// Digits without a needless leading zero, for a number up to `max`.
pub open spec fn canonical(s: Seq<char>, max: nat) -> bool {
    s.len() > 0 && all_digits(s) && (s.len() > 1 ==> s[0] != '0') && digits_value(s) <= max
}

/// The fields of a text between separators.
pub open spec fn fields(s: Seq<char>, sep: char) -> Seq<Seq<char>>
    decreases s.len(),
{
    if s.len() == 0 {
        seq![Seq::empty()]
    } else if s.last() == sep {
        fields(s.drop_last(), sep).push(Seq::empty())
    } else {
        let f = fields(s.drop_last(), sep);
        f.drop_last().push(f.last().push(s.last()))
    }
}

/// The texts put one after the other with `sep` between them.
pub open spec fn joined(parts: Seq<Seq<char>>, sep: Seq<char>) -> Seq<char>
    decreases parts.len(),
{
    if parts.len() == 0 {
        Seq::empty()
    } else if parts.len() == 1 {
        parts[0]
    } else {
        joined(parts.drop_last(), sep) + sep + parts.last()
    }
}

/// The views of a sequence of strings.
pub open spec fn texts(v: Seq<String>) -> Seq<Seq<char>> {
    Seq::new(v.len(), |i: int| v[i]@)
}

/// Dotted decimal notation of an IPv4 address.
pub open spec fn dotted(a: Ipv4Addr) -> Seq<char> {
    let o = a.octets_spec();
    decimal(o[0] as nat) + seq!['.'] + decimal(o[1] as nat) + seq!['.'] + decimal(o[2] as nat) + seq!['.'] + decimal(
        o[3] as nat,
    )
}

/// The IPv4 address that a text in dotted decimal notation stands for: four
/// octets without leading zeros.
pub open spec fn parsed_ipv4(s: Seq<char>) -> Option<Ipv4Addr> {
    let f = fields(s, '.');
    if f.len() == 4 && canonical(f[0], 255) && canonical(f[1], 255) && canonical(f[2], 255) && canonical(f[3], 255) {
        Some(
            Ipv4Addr {
                bits: (digits_value(f[0]) * 0x100_0000 + digits_value(f[1]) * 0x1_0000 + digits_value(f[2]) * 0x100
                    + digits_value(f[3])) as u32,
            },
        )
    } else {
        None
    }
}

fn digit_str(d: u8) -> (r: &'static str)
    requires
        d < 16,
    ensures
        r@ == seq![digit_char(d as nat)],
{
    proof {
        reveal_strlit("0");
        reveal_strlit("1");
        reveal_strlit("2");
        reveal_strlit("3");
        reveal_strlit("4");
        reveal_strlit("5");
        reveal_strlit("6");
        reveal_strlit("7");
        reveal_strlit("8");
        reveal_strlit("9");
        reveal_strlit("a");
        reveal_strlit("b");
        reveal_strlit("c");
        reveal_strlit("d");
        reveal_strlit("e");
        reveal_strlit("f");
    }
    let r = match d {
        0 => "0",
        1 => "1",
        2 => "2",
        3 => "3",
        4 => "4",
        5 => "5",
        6 => "6",
        7 => "7",
        8 => "8",
        9 => "9",
        10 => "a",
        11 => "b",
        12 => "c",
        13 => "d",
        14 => "e",
        _ => "f",
    };
    assert(r@ =~= seq![digit_char(d as nat)]);
    r
}

fn upper_digit_str(d: u8) -> (r: &'static str)
    requires
        d < 16,
    ensures
        r@ == seq![upper_digit_char(d as nat)],
{
    proof {
        reveal_strlit("A");
        reveal_strlit("B");
        reveal_strlit("C");
        reveal_strlit("D");
        reveal_strlit("E");
        reveal_strlit("F");
    }
    let r = match d {
        10 => "A",
        11 => "B",
        12 => "C",
        13 => "D",
        14 => "E",
        15 => "F",
        _ => digit_str(d),
    };
    assert(r@ =~= seq![upper_digit_char(d as nat)]);
    r
}

/// Writes a number in decimal.
pub fn to_decimal(n: u32) -> (r: String)
    ensures
        r@ == decimal(n as nat),
    decreases n,
{
    if n < 10 {
        String::from_str(digit_str(n as u8))
    } else {
        let mut r = to_decimal(n / 10);
        r.append(digit_str((n % 10) as u8));
        assert(r@ =~= decimal(n as nat));
        r
    }
}

fn to_hexadecimal(n: u32) -> (r: String)
    ensures
        r@ == hexadecimal(n as nat),
    decreases n,
{
    if n < 16 {
        String::from_str(digit_str(n as u8))
    } else {
        let mut r = to_hexadecimal(n / 16);
        r.append(digit_str((n % 16) as u8));
        assert(r@ =~= hexadecimal(n as nat));
        r
    }
}

/// Writes a number in hexadecimal with at least two digits.
pub fn to_hex2(n: u32) -> (r: String)
    ensures
        r@ == hex2(n as nat),
{
    if n < 16 {
        let mut r = String::from_str(digit_str(0));
        r.append(digit_str(n as u8));
        assert(r@ =~= hex2(n as nat));
        r
    } else {
        to_hexadecimal(n)
    }
}

/// Writes a byte as two upper-case hexadecimal digits.
pub fn to_byte_hex(b: u8) -> (r: String)
    ensures
        r@ == byte_hex(b),
{
    let mut r = String::from_str(upper_digit_str(b / 16));
    r.append(upper_digit_str(b % 16));
    assert(r@ =~= byte_hex(b));
    r
}

/// Writes an IPv4 address in dotted decimal notation.
pub fn to_dotted(a: Ipv4Addr) -> (r: String)
    ensures
        r@ == dotted(a),
{
    let o = a.octets();
    proof {
        reveal_strlit(".");
        assert("."@ =~= seq!['.']);
    }
    let mut r = to_decimal(o[0] as u32);
    r.append(".");
    r.append(to_decimal(o[1] as u32).as_str());
    r.append(".");
    r.append(to_decimal(o[2] as u32).as_str());
    r.append(".");
    r.append(to_decimal(o[3] as u32).as_str());
    r
}

/// Reads an unsigned number up to `max`.
pub fn parse_number(s: &str, max: u32) -> (r: Option<u32>)
    ensures
        match r {
            Some(n) => parsed(s@, max as nat) == Some(n as nat),
            None => parsed(s@, max as nat) is None,
        },
{
    let n: usize = s.unicode_len();
    let mut start: usize = 0;
    if n > 0 && s.get_char(0) == '+' {
        start = 1;
    }
    let ghost d = unsigned_part(s@);
    assert(d =~= s@.skip(start as int));
    if start == n {
        return None;
    }
    let mut i: usize = start;
    let mut acc: u64 = 0;
    assert(d.take(0) =~= Seq::<char>::empty());
    while i < n
        invariant
            start <= i <= n,
            n == s@.len(),
            start <= 1,
            d == s@.skip(start as int),
            d == unsigned_part(s@),
            d.len() > 0,
            all_digits(d.take(i - start)),
            acc == digits_value(d.take(i - start)),
            acc <= max,
        decreases n - i,
    {
        let c = s.get_char(i);
        let ghost pre = d.take(i - start);
        let ghost cur = d.take(i + 1 - start);
        assert(c == d[i - start]);
        assert(cur.drop_last() =~= pre);
        assert(cur.last() == c);
        if !('0' <= c && c <= '9') {
            assert(!is_digit(d[i - start]));
            return None;
        }
        acc = acc * 10 + (c as u32 - 48) as u64;
        assert(acc == digits_value(cur));
        if acc > max as u64 {
            proof {
                digits_value_grows(d, i + 1 - start);
            }
            return None;
        }
        assert forall|j: int| 0 <= j < cur.len() implies is_digit(#[trigger] cur[j]) by {
            if j < pre.len() {
                assert(cur[j] == pre[j]);
            }
        }
        i += 1;
    }
    assert(d.take(i - start) =~= d);
    Some(acc as u32)
}

/// Digits only make a number larger.
proof fn digits_value_grows(s: Seq<char>, n: int)
    requires
        0 <= n <= s.len(),
    ensures
        all_digits(s) ==> digits_value(s.take(n)) <= digits_value(s),
    decreases s.len() - n,
{
    if n < s.len() {
        digits_value_grows(s, n + 1);
        assert(s.take(n + 1).drop_last() =~= s.take(n));
        assert(s.take(n + 1).last() == s[n]);
    } else {
        assert(s.take(n) =~= s);
    }
}

/// Whether two texts are the same.
pub fn same_text(a: &str, b: &str) -> (r: bool)
    ensures
        r == (a@ == b@),
{
    String::from_str(a) == String::from_str(b)
}

/// Splits a text at every separator.
pub fn split(s: &str, sep: char) -> (r: Vec<String>)
    ensures
        texts(r@) == fields(s@, sep),
{
    let n: usize = s.unicode_len();
    let mut done: Vec<String> = Vec::new();
    let mut start: usize = 0;
    let mut i: usize = 0;
    proof {
        assert(s@.take(0) =~= Seq::<char>::empty());
        assert(s@.subrange(0, 0) =~= Seq::<char>::empty());
        assert(texts(done@).push(s@.subrange(0, 0)) =~= fields(s@.take(0), sep));
    }
    while i < n
        invariant
            start <= i <= n,
            n == s@.len(),
            texts(done@).push(s@.subrange(start as int, i as int)) == fields(s@.take(i as int), sep),
        decreases n - i,
    {
        let c = s.get_char(i);
        let ghost f = fields(s@.take(i as int), sep);
        assert(s@.take(i + 1).drop_last() =~= s@.take(i as int));
        assert(s@.take(i + 1).last() == c);
        assert(f.drop_last() =~= texts(done@));
        assert(f.last() =~= s@.subrange(start as int, i as int));
        if c == sep {
            let ghost before = done@;
            done.push(String::from_str(s.substring_char(start, i)));
            start = i + 1;
            assert(s@.subrange(start as int, i + 1) =~= Seq::<char>::empty());
            assert(texts(done@) =~= texts(before).push(f.last()));
            assert(texts(done@) =~= f);
        } else {
            assert(s@.subrange(start as int, i + 1) =~= f.last().push(c));
        }
        i += 1;
    }
    let ghost before = done@;
    done.push(String::from_str(s.substring_char(start, n)));
    assert(texts(done@) =~= texts(before).push(s@.subrange(start as int, n as int)));
    assert(s@.take(n as int) =~= s@);
    done
}

/// Reads a number written in digits without a leading zero.
fn parse_canonical(s: &str, max: u32) -> (r: Option<u32>)
    ensures
        match r {
            Some(n) => canonical(s@, max as nat) && n == digits_value(s@),
            None => !canonical(s@, max as nat),
        },
{
    let n: usize = s.unicode_len();
    if n == 0 {
        return None;
    }
    let c = s.get_char(0);
    if c == '+' {
        assert(!is_digit(s@[0]));
        return None;
    }
    if n > 1 && c == '0' {
        return None;
    }
    parse_number(s, max)
}

/// Reads an IPv4 address in dotted decimal notation.
pub fn parse_ipv4(s: &str) -> (r: Option<Ipv4Addr>)
    ensures
        r == parsed_ipv4(s@),
{
    let f = split(s, '.');
    let ghost g = fields(s@, '.');
    assert(f@.len() == g.len());
    if f.len() != 4 {
        return None;
    }
    assert(f@[0]@ == g[0] && f@[1]@ == g[1] && f@[2]@ == g[2] && f@[3]@ == g[3]);
    match (
        parse_canonical(f[0].as_str(), 255),
        parse_canonical(f[1].as_str(), 255),
        parse_canonical(f[2].as_str(), 255),
        parse_canonical(f[3].as_str(), 255),
    ) {
        (Some(a), Some(b), Some(c), Some(d)) => Some(
            Ipv4Addr { bits: a * 0x100_0000 + b * 0x1_0000 + c * 0x100 + d },
        ),
        _ => None,
    }
}

/// `itertools::Itertools::join`: the items one after the other, with the
/// separator between each two of them.
#[verifier::external_body]
pub(crate) fn join(parts: Vec<String>, sep: &str) -> (r: String)
    ensures
        r@ == joined(texts(parts@), sep@),
{
    parts.into_iter().join(sep)
}

/// A text has no character `c`.
pub open spec fn lacks(s: Seq<char>, c: char) -> bool {
    forall|i: int| 0 <= i < s.len() ==> #[trigger] s[i] != c
}

/// The decimal form of a number is canonical and stands for the number.
pub proof fn decimal_is_canonical(n: nat)
    ensures
        all_digits(decimal(n)),
        decimal(n).len() > 0,
        decimal(n).len() > 1 ==> decimal(n)[0] != '0',
        digits_value(decimal(n)) == n,
        n > 0 ==> decimal(n)[0] != '0',
    decreases n,
{
    if n < 10 {
        assert(decimal(n).drop_last() =~= Seq::<char>::empty());
        assert(digits_value(decimal(n).drop_last()) == 0);
    } else {
        decimal_is_canonical(n / 10);
        assert(decimal(n).drop_last() =~= decimal(n / 10));
        assert(decimal(n).last() == digit_char(n % 10));
    }
}

/// Appending characters other than the separator lengthens the last field.
pub proof fn fields_of_tail(s: Seq<char>, t: Seq<char>, sep: char)
    requires
        lacks(t, sep),
    ensures
        fields(s, sep).len() > 0,
        fields(s + t, sep) == fields(s, sep).drop_last().push(fields(s, sep).last() + t),
    decreases t.len(),
{
    fields_nonempty(s, sep);
    if t.len() == 0 {
        assert(s + t =~= s);
        assert(fields(s, sep).last() + t =~= fields(s, sep).last());
        assert(fields(s, sep).drop_last().push(fields(s, sep).last()) =~= fields(s, sep));
    } else {
        let u = t.drop_last();
        assert(lacks(u, sep)) by {
            assert forall|i: int| 0 <= i < u.len() implies #[trigger] u[i] != sep by {
                assert(u[i] == t[i]);
            }
        }
        fields_of_tail(s, u, sep);
        assert((s + t).drop_last() =~= s + u);
        assert((s + t).last() == t.last());
        assert(t.last() != sep);
        let f = fields(s + u, sep);
        assert(f.drop_last() =~= fields(s, sep).drop_last());
        assert(f.last().push(t.last()) =~= fields(s, sep).last() + t);
    }
}

pub proof fn fields_nonempty(s: Seq<char>, sep: char)
    ensures
        fields(s, sep).len() > 0,
    decreases s.len(),
{
    if s.len() > 0 {
        fields_nonempty(s.drop_last(), sep);
    }
}

/// A separator and a text without one add one field.
pub proof fn fields_of_append(s: Seq<char>, t: Seq<char>, sep: char)
    requires
        lacks(t, sep),
    ensures
        fields(s + seq![sep] + t, sep) == fields(s, sep).push(t),
{
    let a = s + seq![sep];
    assert(a.drop_last() =~= s);
    assert(fields(a, sep) == fields(s, sep).push(Seq::empty()));
    fields_of_tail(a, t, sep);
    assert(fields(a, sep).drop_last() =~= fields(s, sep));
    assert(Seq::<char>::empty() + t =~= t);
}

/// A text without separators is its only field.
pub proof fn fields_of_one(t: Seq<char>, sep: char)
    requires
        lacks(t, sep),
    ensures
        fields(t, sep) == seq![t],
{
    let e = Seq::<char>::empty();
    fields_of_tail(e, t, sep);
    assert(e + t =~= t);
    assert(fields(e, sep) == seq![e]);
    assert(fields(e, sep).drop_last().push(t) =~= seq![t]);
}

/// What is written in decimal is read back.
pub proof fn decimal_round_trip(n: nat, max: nat)
    ensures
        parsed(decimal(n), max) == (if n <= max {
            Some(n)
        } else {
            None::<nat>
        }),
        lacks(decimal(n), ':'),
        lacks(decimal(n), '.'),
{
    decimal_is_canonical(n);
    assert(is_digit(decimal(n)[0]));
    assert forall|i: int| 0 <= i < decimal(n).len() implies #[trigger] decimal(n)[i] != ':' && decimal(n)[i] != '.' by {
        assert(is_digit(decimal(n)[i]));
    }
}

proof fn lacks_join(a: Seq<char>, sep: char, b: Seq<char>, c: char)
    requires
        lacks(a, c),
        lacks(b, c),
        sep != c,
    ensures
        lacks(a + seq![sep] + b, c),
{
    let s = a + seq![sep] + b;
    assert forall|i: int| 0 <= i < s.len() implies #[trigger] s[i] != c by {
        if i < a.len() {
            assert(s[i] == a[i]);
        } else if i > a.len() {
            assert(s[i] == b[i - a.len() - 1]);
        }
    }
}

/// A text with a character that is no digit behind its first is no number.
pub proof fn not_a_number(s: Seq<char>, i: int, max: nat)
    requires
        0 < i < s.len(),
        !is_digit(s[i]),
    ensures
        parsed(s, max) is None,
{
    let d = unsigned_part(s);
    if s[0] == '+' {
        assert(d[i - 1] == s[i]);
    } else {
        assert(d[i] == s[i]);
    }
}

proof fn dotted_fields(a: Seq<char>, b: Seq<char>, c: Seq<char>, d: Seq<char>)
    requires
        lacks(a, '.'),
        lacks(b, '.'),
        lacks(c, '.'),
        lacks(d, '.'),
    ensures
        fields(a + seq!['.'] + b + seq!['.'] + c + seq!['.'] + d, '.') == seq![a, b, c, d],
{
    fields_of_one(a, '.');
    fields_of_append(a, b, '.');
    let s1 = a + seq!['.'] + b;
    fields_of_append(s1, c, '.');
    let s2 = s1 + seq!['.'] + c;
    fields_of_append(s2, d, '.');
    assert(seq![a].push(b).push(c).push(d) =~= seq![a, b, c, d]);
}

/// An address written in dotted decimal notation is read back, and is not
/// taken for a number.
pub proof fn dotted_round_trip(a: Ipv4Addr, max: nat)
    ensures
        parsed_ipv4(dotted(a)) == Some(a),
        lacks(dotted(a), ':'),
        parsed(dotted(a), max) is None,
{
    let o = a.octets_spec();
    let d0 = decimal(o[0] as nat);
    let d1 = decimal(o[1] as nat);
    let d2 = decimal(o[2] as nat);
    let d3 = decimal(o[3] as nat);
    decimal_is_canonical(o[0] as nat);
    decimal_is_canonical(o[1] as nat);
    decimal_is_canonical(o[2] as nat);
    decimal_is_canonical(o[3] as nat);
    decimal_round_trip(o[0] as nat, 255);
    decimal_round_trip(o[1] as nat, 255);
    decimal_round_trip(o[2] as nat, 255);
    decimal_round_trip(o[3] as nat, 255);
    dotted_fields(d0, d1, d2, d3);
    let f = fields(dotted(a), '.');
    assert(f[0] == d0 && f[1] == d1 && f[2] == d2 && f[3] == d3);
    be4_round_trip(a.bits);
    lacks_join(d0, '.', d1, ':');
    lacks_join(d0 + seq!['.'] + d1, '.', d2, ':');
    lacks_join(d0 + seq!['.'] + d1 + seq!['.'] + d2, '.', d3, ':');
    assert(dotted(a)[d0.len() as int] == '.');
    not_a_number(dotted(a), d0.len() as int, max);
}

}
