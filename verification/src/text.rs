//! Text building blocks: decimal numerals and comma separated lists.

use vstd::prelude::*;
use vstd::string::*;

verus! {

/// The character of a single decimal digit.
pub open spec fn digit(d: nat) -> char {
    ('0' as int + d) as char
}

/// The decimal numeral of `n`, without leading zeroes.
pub open spec fn decimal(n: nat) -> Seq<char>
    decreases n,
{
    if n < 10 {
        seq![digit(n)]
    } else {
        decimal(n / 10) + seq![digit(n % 10)]
    }
}

/// The decimal numeral of a signed number: a minus sign in front of a negative one.
pub open spec fn signed_decimal(n: int) -> Seq<char> {
    if n < 0 {
        "-"@ + decimal((-n) as nat)
    } else {
        decimal(n as nat)
    }
}

/// The number that a sequence of decimal digits denotes.
pub open spec fn numeral_value(s: Seq<char>) -> int
    decreases s.len(),
{
    if s.len() == 0 {
        0
    } else {
        10 * numeral_value(s.drop_last()) + (s.last() as int - '0' as int)
    }
}

/// A numeral denotes the number it was written for, so distinct numbers have distinct numerals.
pub proof fn numeral_reads_back(n: nat)
    ensures
        numeral_value(decimal(n)) == n,
    decreases n,
{
    reveal_with_fuel(numeral_value, 2);
    if n < 10 {
        assert(decimal(n).drop_last() =~= Seq::<char>::empty());
    } else {
        numeral_reads_back(n / 10);
        assert(decimal(n).drop_last() =~= decimal(n / 10));
    }
}

/// Whether a text consists of decimal digits.
pub open spec fn all_digits(s: Seq<char>) -> bool {
    forall|i: int| 0 <= i < s.len() ==> '0' <= #[trigger] s[i] <= '9'
}

/// A numeral consists of decimal digits.
pub proof fn numeral_is_digits(n: nat)
    ensures
        all_digits(decimal(n)),
    decreases n,
{
    if n >= 10 {
        numeral_is_digits(n / 10);
    }
}

/// A numeral ends where something other than a digit follows: two texts that start with a numeral
/// so ended are the same only if the numerals denote one number and the rests are the same.
pub proof fn numeral_delimits(m: nat, n: nat, a: Seq<char>, b: Seq<char>)
    requires
        a.len() > 0,
        b.len() > 0,
        !('0' <= a[0] <= '9'),
        !('0' <= b[0] <= '9'),
        decimal(m) + a == decimal(n) + b,
    ensures
        m == n,
        a == b,
{
    let (x, y) = (decimal(m), decimal(n));
    numeral_is_digits(m);
    numeral_is_digits(n);
    if x.len() < y.len() {
        assert((x + a)[x.len() as int] == a[0]);
        assert((y + b)[x.len() as int] == y[x.len() as int]);
    }
    if y.len() < x.len() {
        assert((y + b)[y.len() as int] == b[0]);
        assert((x + a)[y.len() as int] == x[y.len() as int]);
    }
    assert(x =~= (x + a).take(x.len() as int));
    assert(y =~= (y + b).take(x.len() as int));
    assert(a =~= (x + a).skip(x.len() as int));
    assert(b =~= (y + b).skip(x.len() as int));
    numeral_reads_back(m);
    numeral_reads_back(n);
}

/// The parts, separated by a comma and a blank.
pub open spec fn comma_separated(parts: Seq<Seq<char>>) -> Seq<char>
    decreases parts.len(),
{
    if parts.len() == 0 {
        Seq::empty()
    } else if parts.len() == 1 {
        parts[0]
    } else {
        comma_separated(parts.drop_last()) + ", "@ + parts.last()
    }
}

/// The number that a numeral denotes that may have a minus sign in front.
pub open spec fn signed_value(s: Seq<char>) -> int {
    if s.len() > 0 && s[0] == '-' {
        -numeral_value(s.drop_first())
    } else {
        numeral_value(s)
    }
}

/// A numeral is not empty, and only the one of zero starts with a zero.
pub proof fn numeral_has_no_leading_zero(n: nat)
    ensures
        decimal(n).len() > 0,
        decimal(n)[0] == '0' <==> n == 0,
        n == 0 ==> decimal(n).len() == 1,
    decreases n,
{
    if n >= 10 {
        numeral_has_no_leading_zero(n / 10);
    }
}

/// A signed numeral denotes the number it was written for, with its sign. It starts with a minus
/// sign if and only if the number is negative, and the rest are digits.
pub proof fn signed_numeral_reads_back(n: int)
    ensures
        signed_value(signed_decimal(n)) == n,
        signed_decimal(n).len() > 0,
        signed_decimal(n)[0] == '-' <==> n < 0,
        n >= 0 ==> all_digits(signed_decimal(n)),
        n < 0 ==> all_digits(signed_decimal(n).drop_first()),
{
    let size = if n < 0 {
        (-n) as nat
    } else {
        n as nat
    };
    numeral_reads_back(size);
    numeral_is_digits(size);
    numeral_has_no_leading_zero(size);
    reveal_strlit("-");
    if n < 0 {
        assert(signed_decimal(n).drop_first() =~= decimal(size));
    }
}

/// A signed numeral ends where something other than a digit follows.
pub proof fn signed_numeral_delimits(m: int, n: int, a: Seq<char>, b: Seq<char>)
    requires
        a.len() > 0,
        b.len() > 0,
        !('0' <= a[0] <= '9'),
        !('0' <= b[0] <= '9'),
        signed_decimal(m) + a == signed_decimal(n) + b,
    ensures
        m == n,
        a == b,
{
    signed_numeral_reads_back(m);
    signed_numeral_reads_back(n);
    assert((signed_decimal(m) + a)[0] == signed_decimal(m)[0]);
    assert((signed_decimal(n) + b)[0] == signed_decimal(n)[0]);
    if m < 0 {
        assert(n < 0);
        let (x, y) = (decimal((-m) as nat), decimal((-n) as nat));
        reveal_strlit("-");
        assert((signed_decimal(m) + a).drop_first() =~= x + a);
        assert((signed_decimal(n) + b).drop_first() =~= y + b);
        numeral_delimits((-m) as nat, (-n) as nat, a, b);
    } else {
        assert(n >= 0);
        numeral_delimits(m as nat, n as nat, a, b);
    }
}

/// No parts give nothing, a single part stands alone, and between the parts of two lists put
/// together stands one comma and one blank.
pub proof fn lists_are_put_together(a: Seq<Seq<char>>, b: Seq<Seq<char>>)
    ensures
        comma_separated(Seq::empty()) == Seq::<char>::empty(),
        a.len() == 1 ==> comma_separated(a) == a[0],
        a.len() > 0 && b.len() > 0 ==> comma_separated(a + b) == comma_separated(a) + seq![',', ' ']
            + comma_separated(b),
    decreases b.len(),
{
    if a.len() > 0 && b.len() > 0 {
        reveal_strlit(", ");
        assert(", "@ =~= seq![',', ' ']);
        assert((a + b).drop_last() =~= a + b.drop_last());
        if b.len() > 1 {
            lists_are_put_together(a, b.drop_last());
            assert(comma_separated(a + b) =~= comma_separated(a) + seq![',', ' ']
                + comma_separated(b));
        } else {
            assert(a + b.drop_last() =~= a);
        }
    }
}

/// The strings of a list are listed one by one.
pub proof fn contents_are_those_of_the_strings(strings: Seq<String>, i: int)
    requires
        0 <= i < strings.len(),
    ensures
        contents(strings).len() == strings.len(),
        contents(strings)[i] == strings[i]@,
{
}

/// What each string of a list holds.
pub open spec fn contents(strings: Seq<String>) -> Seq<Seq<char>> {
    strings.map_values(|s: String| s@)
}

/// The one-character string of a digit.
fn digit_str(d: u64) -> (s: &'static str)
    requires
        d < 10,
    ensures
        s@ == seq![digit(d as nat)],
{
    proof {
        reveal_strlit("0");
        reveal_strlit("1");
        reveal_strlit("2");
        reveal_strlit("3");
        reveal_strlit("4");
        reveal_strlit("5");
        reveal_strlit("6");
        reveal_strlit("7");
        reveal_strlit("8");
        reveal_strlit("9");
    }
    match d {
        0 => "0",
        1 => "1",
        2 => "2",
        3 => "3",
        4 => "4",
        5 => "5",
        6 => "6",
        7 => "7",
        8 => "8",
        _ => "9",
    }
}

/// Writes a number in decimal.
pub fn number(n: u64) -> (s: String)
    ensures
        s@ == decimal(n as nat),
    decreases n,
{
    if n < 10 {
        digit_str(n).to_owned()
    } else {
        let mut s = number(n / 10);
        s.append(digit_str(n % 10));
        s
    }
}

/// Writes a signed number in decimal.
pub fn signed_number(n: i32) -> (s: String)
    ensures
        s@ == signed_decimal(n as int),
{
    if n < 0 {
        let mut s = "-".to_owned();
        let magnitude: i64 = -(n as i64);
        s.append(number(magnitude as u64).as_str());
        s
    } else {
        number(n as u64)
    }
}

/// Joins strings with a comma and a blank between neighbours.
pub fn join(xs: &[String]) -> (s: String)
    ensures
        s@ == comma_separated(contents(xs@)),
{
    let mut s = String::new();
    let mut i: usize = 0;
    while i < xs.len()
        invariant
            i <= xs@.len(),
            s@ == comma_separated(contents(xs@).take(i as int)),
        decreases xs@.len() - i,
    {
        proof {
            let next = contents(xs@).take(i + 1);
            assert(next.drop_last() =~= contents(xs@).take(i as int));
            assert(next.last() == xs@[i as int]@);
            if i == 0 {
                assert(s@ =~= Seq::empty());
                assert(s@ + xs@[0]@ =~= xs@[0]@);
            }
        }
        if i > 0 {
            s.append(", ");
        }
        s.append(xs[i].as_str());
        i = i + 1;
    }
    assert(contents(xs@).take(xs@.len() as int) =~= contents(xs@));
    s
}

} // verus!
