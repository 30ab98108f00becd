//! Exact decimal prices: parsing from text and display in dollars and cents.
use vstd::prelude::*;
use vstd::string::*;

verus! {

/// Most digits a price may carry, so that every intermediate value fits in `u128`.
pub const MAX_DIGITS: usize = 36;

/// A non-negative amount of US dollars, `units / 10^scale`.
#[derive(Clone, Copy, Debug, PartialEq, Eq)]
pub struct Price {
    pub units: u128,
    pub scale: u32,
}

pub open spec fn is_digit(c: char) -> bool {
    '0' <= c && c <= '9'
}

pub open spec fn digit_of(c: char) -> nat {
    (c as nat - '0' as nat) as nat
}

pub open spec fn all_digits(s: Seq<char>) -> bool {
    forall|i: int| 0 <= i < s.len() ==> is_digit(#[trigger] s[i])
}

/// The number that a string of decimal digits spells, most significant first.
pub open spec fn digits_value(s: Seq<char>) -> nat
    decreases s.len(),
{
    if s.len() == 0 {
        0
    } else {
        digits_value(s.drop_last()) * 10 + digit_of(s.last())
    }
}

pub open spec fn pow10(n: nat) -> nat
    decreases n,
{
    if n == 0 {
        1
    } else {
        10 * pow10((n - 1) as nat)
    }
}

/// `s` has its decimal point at `k`, with digits on both sides of it.
pub open spec fn point_at(s: Seq<char>, k: int) -> bool {
    0 < k < s.len() - 1 && s[k] == '.' && all_digits(s.take(k)) && all_digits(s.skip(k + 1))
}

/// What a decimal text denotes, as `(units, scale)`: digits, or digits, a point and
/// digits. No sign, no exponent, no blanks.
pub open spec fn decimal_of(s: Seq<char>) -> Option<(nat, nat)> {
    if s.len() > 0 && all_digits(s) {
        Some((digits_value(s), 0))
    } else if exists|k: int| point_at(s, k) {
        let k = choose|k: int| point_at(s, k);
        Some((digits_value(s.take(k) + s.skip(k + 1)), (s.len() - k - 1) as nat))
    } else {
        None
    }
}

/// The number of digits in a decimal text (all but its point).
pub open spec fn digit_count(s: Seq<char>) -> int {
    if all_digits(s) {
        s.len() as int
    } else {
        s.len() - 1
    }
}

/// The price a text spells, where it is a decimal of at most `MAX_DIGITS` digits.
pub open spec fn price_of(s: Seq<char>) -> Option<Price> {
    match decimal_of(s) {
        Some((u, sc)) => if digit_count(s) <= MAX_DIGITS {
            Some(Price { units: u as u128, scale: sc as u32 })
        } else {
            None
        },
        None => None,
    }
}

impl Price {
    /// Every price that `parse_price` makes has this shape.
    pub open spec fn wf(&self) -> bool {
        self.units < pow10(MAX_DIGITS as nat) && self.scale < MAX_DIGITS
    }

    /// Whether the price has the shape that `format_price` needs.
    pub fn is_valid(&self) -> (r: bool)
        ensures
            r == self.wf(),
    {
        proof {
            lemma_pow10_max();
        }
        self.units < 1000000000000000000000000000000000000u128 && self.scale < 36
    }

    /// The amount in whole cents, a half cent rounded up.
    pub open spec fn cents(&self) -> nat {
        let p = pow10(self.scale as nat) as int;
        ((self.units as int * 100 + p / 2) / p) as nat
    }
}

proof fn lemma_pow10_pos(n: nat)
    ensures
        pow10(n) >= 1,
    decreases n,
{
    if n > 0 {
        lemma_pow10_pos((n - 1) as nat);
    }
}

proof fn lemma_pow10_mono(a: nat, b: nat)
    requires
        a <= b,
    ensures
        pow10(a) <= pow10(b),
    decreases b,
{
    lemma_pow10_pos(b);
    if a < b {
        lemma_pow10_mono(a, (b - 1) as nat);
    }
}

proof fn lemma_digits_value_push(s: Seq<char>, c: char)
    ensures
        digits_value(s.push(c)) == digits_value(s) * 10 + digit_of(c),
{
    assert(s.push(c).drop_last() =~= s);
}

proof fn lemma_digits_value_bound(s: Seq<char>)
    requires
        all_digits(s),
    ensures
        digits_value(s) < pow10(s.len()),
    decreases s.len(),
{
    if s.len() > 0 {
        let t = s.drop_last();
        assert(all_digits(t)) by {
            assert forall|i: int| 0 <= i < t.len() implies is_digit(#[trigger] t[i]) by {
                assert(t[i] == s[i]);
            }
        }
        lemma_digits_value_bound(t);
        assert(is_digit(s[s.len() - 1]));
        assert(digit_of(s.last()) < 10);
        assert(pow10(s.len()) == 10 * pow10(t.len()));
    }
}

proof fn lemma_pow10_max()
    ensures
        pow10(MAX_DIGITS as nat) == 1000000000000000000000000000000000000nat,
{
    reveal_with_fuel(pow10, 37);
}

/// The digits of `s` before `j`, leaving out position `k`.
pub open spec fn digits_before(s: Seq<char>, k: int, j: int) -> Seq<char> {
    if j <= k {
        s.take(j)
    } else {
        s.take(k) + s.subrange(k + 1, j)
    }
}

proof fn lemma_point_unique(s: Seq<char>, a: int, b: int)
    requires
        point_at(s, a),
        point_at(s, b),
    ensures
        a == b,
{
    if a < b {
        assert(s.take(b)[a] == s[a]);
    } else if b < a {
        assert(s.take(a)[b] == s[b]);
    }
}

/// No decimal point can stand anywhere in `s` once position `i` holds a character
/// that is no digit, and that is no point after leading digits, or follows the point at `p`.
proof fn lemma_no_point(s: Seq<char>, p: int, i: int)
    requires
        0 <= i < s.len(),
        !is_digit(s[i]),
        ((s[i] != '.' || i == 0) && all_digits(s.take(i))) || (0 <= p < i && s[p] == '.'),
    ensures
        !(exists|k: int| point_at(s, k)),
{
    assert forall|k: int| !point_at(s, k) by {
        if point_at(s, k) {
            if k < i {
                assert(s.skip(k + 1)[i - k - 1] == s[i]);
            } else if k > i {
                assert(s.take(k)[i] == s[i]);
            } else if 0 <= p < i {
                assert(s.take(k)[p] == s[p]);
            }
        }
    }
}

fn digit_at(s: &str, i: usize) -> (r: bool)
    requires
        i < s@.len(),
    ensures
        r == is_digit(s@[i as int]),
{
    let c = s.get_char(i);
    '0' <= c && c <= '9'
}

/// Reads a price from its decimal text: digits, optionally a point and more digits,
/// at most `MAX_DIGITS` digits in all.
pub fn parse_price(s: &str) -> (r: Option<Price>)
    ensures
        r == price_of(s@),
        r matches Some(p) ==> p.wf(),
{
    let n = s.unicode_len();
    let ghost v = s@;
    let mut i: usize = 0;
    while i < n && digit_at(s, i)
        invariant
            i <= n,
            n == v.len(),
            v == s@,
            all_digits(v.take(i as int)),
        decreases n - i,
    {
        proof {
            assert forall|m: int| 0 <= m < i + 1 implies is_digit(#[trigger] v.take(i + 1)[m]) by {
                if m < i {
                    assert(v.take(i as int)[m] == v[m]);
                }
            }
        }
        i = i + 1;
    }
    if i == n {
        assert(v.take(i as int) =~= v);
        if n == 0 || n > MAX_DIGITS {
            return None;
        }
    } else {
        if i == 0 || s.get_char(i) != '.' || i + 1 == n || n - 1 > MAX_DIGITS {
            proof {
                if i == 0 || v[i as int] != '.' {
                    lemma_no_point(v, -1, i as int);
                } else if i + 1 == n {
                    assert forall|k: int| !point_at(v, k) by {
                        if point_at(v, k) && k < i {
                            assert(v.skip(k + 1)[i - k - 1] == v[i as int]);
                        }
                    }
                } else {
                    assert(!all_digits(v));
                }
            }
            return None;
        }
        let mut j: usize = i + 1;
        while j < n && digit_at(s, j)
            invariant
                i < j <= n,
                n == v.len(),
                v == s@,
                all_digits(v.subrange(i + 1, j as int)),
            decreases n - j,
        {
            proof {
                assert forall|m: int| 0 <= m < j + 1 - (i + 1) implies is_digit(
                    #[trigger] v.subrange(i + 1, j + 1)[m],
                ) by {
                    if m < j - (i + 1) {
                        assert(v.subrange(i + 1, j as int)[m] == v[i + 1 + m]);
                    }
                }
            }
            j = j + 1;
        }
        if j < n {
            proof {
                lemma_no_point(v, i as int, j as int);
                assert(!all_digits(v)) by {
                    assert(!is_digit(v[i as int]));
                }
            }
            return None;
        }
        proof {
            assert(v.subrange(i + 1, n as int) =~= v.skip(i + 1));
            assert(point_at(v, i as int));
            assert(!all_digits(v)) by {
                assert(!is_digit(v[i as int]));
            }
            let k = choose|k: int| point_at(v, k);
            lemma_point_unique(v, k, i as int);
        }
    }
    let point: usize = i;
    let mut units: u128 = 0;
    let mut j: usize = 0;
    while j < n
        invariant
            j <= n,
            n == v.len(),
            v == s@,
            point <= n,
            point < n ==> v[point as int] == '.',
            point < n ==> n - 1 <= MAX_DIGITS && point_at(v, point as int),
            point == n ==> n <= MAX_DIGITS && all_digits(v),
            units == digits_value(digits_before(v, point as int, j as int)),
        decreases n - j,
    {
        if j != point {
            let c = s.get_char(j);
            proof {
                let t = digits_before(v, point as int, j as int);
                let t2 = digits_before(v, point as int, j + 1);
                assert(t2 =~= t.push(c));
                assert(is_digit(c)) by {
                    if point < n && j < point {
                        assert(v.take(point as int)[j as int] == v[j as int]);
                    } else if point < n {
                        assert(v.skip(point + 1)[j - point - 1] == v[j as int]);
                    }
                }
                assert(all_digits(t2)) by {
                    assert forall|m: int| 0 <= m < t2.len() implies is_digit(#[trigger] t2[m]) by {
                        if point < n && m >= point {
                            assert(t2[m] == v[m + 1]);
                            assert(v.skip(point + 1)[m - point] == v[m + 1]);
                        } else if point < n {
                            assert(t2[m] == v[m]);
                            assert(v.take(point as int)[m] == v[m]);
                        } else {
                            assert(t2[m] == v[m]);
                        }
                    }
                }
                lemma_digits_value_push(t, c);
                lemma_digits_value_bound(t2);
                lemma_pow10_mono(t2.len(), MAX_DIGITS as nat);
                lemma_pow10_max();
            }
            let d = (c as u32 - '0' as u32) as u128;
            units = units * 10 + d;
        } else {
            proof {
                assert(digits_before(v, point as int, j + 1) =~= digits_before(
                    v,
                    point as int,
                    j as int,
                ));
            }
        }
        j = j + 1;
    }
    proof {
        let t = digits_before(v, point as int, n as int);
        if point < n {
            assert(t =~= v.take(point as int) + v.skip(point + 1));
        } else {
            assert(t =~= v);
        }
        assert(all_digits(t)) by {
            assert forall|m: int| 0 <= m < t.len() implies is_digit(#[trigger] t[m]) by {
                if point < n && m >= point {
                    assert(v.skip(point + 1)[m - point] == t[m]);
                } else if point < n {
                    assert(v.take(point as int)[m] == t[m]);
                }
            }
        }
        lemma_digits_value_bound(t);
        lemma_pow10_mono(t.len(), MAX_DIGITS as nat);
    }
    let scale: u32 = if point < n {
        (n - point - 1) as u32
    } else {
        0
    };
    Some(Price { units, scale })
}

pub open spec fn digit_char(d: nat) -> char {
    seq!['0', '1', '2', '3', '4', '5', '6', '7', '8', '9'][d as int]
}

/// The decimal digits of `n`, without leading zeros.
pub open spec fn nat_text(n: nat) -> Seq<char>
    decreases n,
{
    if n < 10 {
        seq![digit_char(n)]
    } else {
        nat_text(n / 10).push(digit_char(n % 10))
    }
}

/// An amount of cents shown as dollars: `$`, the whole dollars, a point, two digits.
pub open spec fn dollars_text(cents: nat) -> Seq<char> {
    seq!['$'] + nat_text(cents / 100) + seq!['.', digit_char((cents % 100) / 10), digit_char(
        cents % 10,
    )]
}

fn digit_str(d: u128) -> (r: &'static str)
    requires
        d < 10,
    ensures
        r@ == seq![digit_char(d as nat)],
{
    proof {
        reveal_strlit("0");
        reveal_strlit("1");
        reveal_strlit("2");
        reveal_strlit("3");
        reveal_strlit("4");
        reveal_strlit("5");
        reveal_strlit("6");
        reveal_strlit("7");
        reveal_strlit("8");
        reveal_strlit("9");
    }
    match d {
        0 => "0",
        1 => "1",
        2 => "2",
        3 => "3",
        4 => "4",
        5 => "5",
        6 => "6",
        7 => "7",
        8 => "8",
        _ => "9",
    }
}

pub(crate) fn decimal_text(n: u128) -> (r: String)
    ensures
        r@ == nat_text(n as nat),
{
    let mut m: u128 = n;
    let mut acc = String::new();
    loop
        invariant
            nat_text(n as nat) == nat_text(m as nat) + acc@,
        decreases m,
    {
        let d = m % 10;
        let head = String::from_str(digit_str(d));
        let ghost old_acc = acc@;
        acc = head.concat(acc.as_str());
        if m < 10 {
            assert(acc@ =~= nat_text(m as nat) + old_acc);
            return acc;
        }
        assert(nat_text(m as nat) + old_acc =~= nat_text((m / 10) as nat) + acc@);
        m = m / 10;
    }
}

fn pow10_exec(n: u32) -> (r: u128)
    requires
        n < MAX_DIGITS,
    ensures
        r == pow10(n as nat),
{
    let mut r: u128 = 1;
    let mut i: u32 = 0;
    while i < n
        invariant
            i <= n < MAX_DIGITS,
            r == pow10(i as nat),
        decreases n - i,
    {
        proof {
            lemma_pow10_mono((i + 1) as nat, MAX_DIGITS as nat);
            lemma_pow10_max();
        }
        r = r * 10;
        i = i + 1;
    }
    r
}

/// Shows a price as dollars and cents, a half cent rounded up: `$123.46`.
pub fn format_price(p: &Price) -> (r: String)
    requires
        p.wf(),
    ensures
        r@ == dollars_text(p.cents()),
{
    let pw = pow10_exec(p.scale);
    proof {
        lemma_pow10_max();
        lemma_pow10_pos(p.scale as nat);
        lemma_pow10_mono(p.scale as nat, MAX_DIGITS as nat);
        assert(p.units * 100 <= 100000000000000000000000000000000000000u128);
    }
    let cents = (p.units * 100 + pw / 2) / pw;
    let mut r = String::from_str("$");
    let whole = decimal_text(cents / 100);
    r.append(whole.as_str());
    r.append(".");
    r.append(digit_str((cents % 100) / 10));
    r.append(digit_str(cents % 10));
    proof {
        reveal_strlit("$");
        reveal_strlit(".");
    }
    assert(r@ =~= dollars_text(p.cents()));
    r
}

} // verus!
