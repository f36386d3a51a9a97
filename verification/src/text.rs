//! Small string utilities: stripping spaces from an authorization code and
//! rendering integers in decimal for request URLs.

use vstd::prelude::*;
use vstd::string::*;

verus! {

/// Relies on `String::push`: appends one character to the string.
#[verifier::external_body]
fn push_char(s: &mut String, c: char)
    ensures
        final(s)@ == old(s)@.push(c),
{
    s.push(c);
}

/// The predicate selecting characters that are not whitespace: not a
/// space, tab, line feed or carriage return.
pub open spec fn non_whitespace() -> spec_fn(char) -> bool {
    |c: char| c != ' ' && c != '\t' && c != '\n' && c != '\r'
}

/// Filtering commutes with pushing one character.
proof fn lemma_filter_push_char(s: Seq<char>, x: char, p: spec_fn(char) -> bool)
    ensures
        s.push(x).filter(p) == if p(x) {
            s.filter(p).push(x)
        } else {
            s.filter(p)
        },
{
    assert(s.push(x).drop_last() =~= s);
    reveal_with_fuel(Seq::filter, 2);
}

/// The authorization code with every whitespace character removed, as the
/// portal displays codes with spacing for readability.
pub fn normalize_code(code: &str) -> (r: String)
    ensures
        r@ == code@.filter(non_whitespace()),
{
    let n = code.unicode_len();
    let mut out = String::new();
    let mut i: usize = 0;
    proof {
        assert(code@.take(0).filter(non_whitespace()) =~= out@);
    }
    while i < n
        invariant
            i <= n,
            n == code@.len(),
            out@ == code@.take(i as int).filter(non_whitespace()),
        decreases n - i,
    {
        let c = code.get_char(i);
        proof {
            assert(code@.take(i as int + 1).drop_last() =~= code@.take(i as int));
            assert(code@.take(i as int + 1).last() == code@[i as int]);
            lemma_filter_push_char(code@.take(i as int), code@[i as int], non_whitespace());
            assert(code@.take(i as int).push(code@[i as int]) =~= code@.take(i as int + 1));
        }
        if c != ' ' && c != '\t' && c != '\n' && c != '\r' {
            push_char(&mut out, c);
        }
        i += 1;
    }
    proof {
        assert(code@.take(n as int) =~= code@);
    }
    out
}

/// The character of one decimal digit.
pub open spec fn spec_digit(d: int) -> char {
    if d == 0 {
        '0'
    } else if d == 1 {
        '1'
    } else if d == 2 {
        '2'
    } else if d == 3 {
        '3'
    } else if d == 4 {
        '4'
    } else if d == 5 {
        '5'
    } else if d == 6 {
        '6'
    } else if d == 7 {
        '7'
    } else if d == 8 {
        '8'
    } else {
        '9'
    }
}

/// The decimal digits of a non-negative integer, most significant first.
pub open spec fn spec_udec(n: int) -> Seq<char>
    recommends
        n >= 0,
    decreases n,
{
    if n < 10 {
        seq![spec_digit(n)]
    } else {
        spec_udec(n / 10).push(spec_digit(n % 10))
    }
}

/// The decimal rendering of an integer: a minus sign for a negative value,
/// then its digits.
pub open spec fn spec_dec(n: int) -> Seq<char> {
    if n < 0 {
        seq!['-'] + spec_udec(-n)
    } else {
        spec_udec(n)
    }
}

/// The character of one digit.
fn digit_char(d: u64) -> (c: char)
    requires
        d < 10,
    ensures
        c == spec_digit(d as int),
{
    if d == 0 {
        '0'
    } else if d == 1 {
        '1'
    } else if d == 2 {
        '2'
    } else if d == 3 {
        '3'
    } else if d == 4 {
        '4'
    } else if d == 5 {
        '5'
    } else if d == 6 {
        '6'
    } else if d == 7 {
        '7'
    } else if d == 8 {
        '8'
    } else {
        '9'
    }
}

/// Renders an unsigned integer in decimal.
pub fn fmt_u64(n: u64) -> (r: String)
    ensures
        r@ == spec_udec(n as int),
    decreases n,
{
    if n < 10 {
        let mut s = String::new();
        push_char(&mut s, digit_char(n));
        proof {
            assert(s@ =~= seq![spec_digit(n as int)]);
        }
        s
    } else {
        let mut s = fmt_u64(n / 10);
        push_char(&mut s, digit_char(n % 10));
        s
    }
}

/// Renders a signed integer in decimal, as `start` and `end` appear in a
/// request URL.
pub fn fmt_i64(n: i64) -> (r: String)
    ensures
        r@ == spec_dec(n as int),
{
    if n >= 0 {
        fmt_u64(n as u64)
    } else {
        let mut s = String::new();
        push_char(&mut s, '-');
        let m: u64 = if n == i64::MIN {
            9223372036854775808u64
        } else {
            (-n) as u64
        };
        proof {
            assert(m as int == -(n as int));
        }
        let t = fmt_u64(m);
        s.append(t.as_str());
        proof {
            assert(s@ =~= seq!['-'] + spec_udec(-(n as int)));
        }
        s
    }
}

/// The items joined with a comma and a space between neighbours.
pub open spec fn spec_join(items: Seq<String>) -> Seq<char>
    decreases items.len(),
{
    if items.len() == 0 {
        Seq::empty()
    } else if items.len() == 1 {
        items[0]@
    } else {
        spec_join(items.drop_last()) + ", "@ + items.last()@
    }
}

/// Joins strings with `", "` between neighbours.
pub fn join_comma(items: &Vec<String>) -> (r: String)
    ensures
        r@ == spec_join(items@),
{
    let mut out = String::new();
    let mut i: usize = 0;
    while i < items.len()
        invariant
            i <= items@.len(),
            out@ == spec_join(items@.take(i as int)),
        decreases items@.len() - i,
    {
        if i > 0 {
            out.append(", ");
        }
        out.append(items[i].as_str());
        proof {
            assert(items@.take(i as int + 1).drop_last() =~= items@.take(i as int));
            assert(items@.take(i as int + 1).last() == items@[i as int]);
            if i == 0 {
                assert(out@ =~= items@[0]@);
            } else {
                assert(out@ =~= spec_join(items@.take(i as int)) + ", "@ + items@[i as int]@);
            }
        }
        i += 1;
    }
    proof {
        assert(items@.take(items@.len() as int) =~= items@);
    }
    out
}

} // verus!
