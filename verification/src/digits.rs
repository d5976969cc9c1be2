//! Decimal numerals as character sequences: rendering a `u64` into its
//! digits and reading a digit run back, with the round-trip proved. The
//! poll text embeds three numerals (requester id, room id, timeout), and
//! parsing scans them backwards as the longest digit suffix.

use vstd::prelude::*;
use vstd::arithmetic::div_mod::lemma_fundamental_div_mod;

verus! {

/// Is `c` one of the ten ASCII decimal digits?
pub open spec fn is_digit_char(c: char) -> bool {
    '0' <= c && c <= '9'
}

/// Numeric value of a digit character.
pub open spec fn digit_val(c: char) -> int {
    c as u32 - '0' as u32
}

/// The digit character for a value in 0..10.
pub open spec fn char_of_digit(d: int) -> char {
    if d == 0 {
        '0'
    } else if d == 1 {
        '1'
    } else if d == 2 {
        '2'
    } else if d == 3 {
        '3'
    } else if d == 4 {
        '4'
    } else if d == 5 {
        '5'
    } else if d == 6 {
        '6'
    } else if d == 7 {
        '7'
    } else if d == 8 {
        '8'
    } else {
        '9'
    }
}

/// The canonical decimal numeral of `n`: no leading zeros, and `0` itself
/// is the single character `'0'`.
pub open spec fn spec_digits(n: nat) -> Seq<char>
    decreases n,
{
    if n < 10 {
        seq![char_of_digit(n as int)]
    } else {
        spec_digits(n / 10).push(char_of_digit((n % 10) as int))
    }
}

/// Every character of `s` is a decimal digit.
pub open spec fn all_digits(s: Seq<char>) -> bool {
    forall|i: int| 0 <= i < s.len() ==> is_digit_char(#[trigger] s[i])
}

/// The numeric value of a digit sequence (most significant first).
pub open spec fn digits_val(s: Seq<char>) -> int
    decreases s.len(),
{
    if s.len() == 0 {
        0
    } else {
        digits_val(s.drop_last()) * 10 + digit_val(s.last())
    }
}

/// Length of the longest run of digit characters at the end of `s`.
pub open spec fn digit_suffix_len(s: Seq<char>) -> int
    decreases s.len(),
{
    if s.len() == 0 || !is_digit_char(s.last()) {
        0
    } else {
        1 + digit_suffix_len(s.drop_last())
    }
}

/// `char_of_digit` yields a digit character whose value is the argument.
pub proof fn lemma_char_of_digit_val(d: int)
    requires
        0 <= d < 10,
    ensures
        is_digit_char(char_of_digit(d)),
        digit_val(char_of_digit(d)) == d,
{
}

/// The canonical numeral consists of digit characters only.
pub proof fn lemma_spec_digits_all_digits(n: nat)
    ensures
        all_digits(spec_digits(n)),
        spec_digits(n).len() >= 1,
    decreases n,
{
    if n < 10 {
        lemma_char_of_digit_val(n as int);
    } else {
        lemma_spec_digits_all_digits(n / 10);
        lemma_char_of_digit_val((n % 10) as int);
        assert forall|i: int| 0 <= i < spec_digits(n).len() implies is_digit_char(
            #[trigger] spec_digits(n)[i],
        ) by {
            if i < spec_digits(n / 10).len() {
                assert(spec_digits(n)[i] == spec_digits(n / 10)[i]);
            }
        }
    }
}

/// Reading the canonical numeral back gives the number: the digit
/// round-trip.
pub proof fn lemma_spec_digits_val(n: nat)
    ensures
        digits_val(spec_digits(n)) == n,
    decreases n,
{
    if n < 10 {
        lemma_char_of_digit_val(n as int);
        let s = spec_digits(n);
        assert(s.len() == 1);
        assert(s.last() == char_of_digit(n as int));
        assert(s.drop_last() =~= Seq::<char>::empty());
        assert(digits_val(s.drop_last()) == 0);
        assert(digits_val(s) == digits_val(s.drop_last()) * 10 + digit_val(s.last()));
    } else {
        lemma_spec_digits_val(n / 10);
        lemma_char_of_digit_val((n % 10) as int);
        let s = spec_digits(n);
        assert(s.drop_last() =~= spec_digits(n / 10));
        assert(s.last() == char_of_digit((n % 10) as int));
        assert(digits_val(s) == digits_val(spec_digits(n / 10)) * 10 + digit_val(
            char_of_digit((n % 10) as int),
        ));
        lemma_fundamental_div_mod(n as int, 10);
        assert(digits_val(s) == (n / 10) * 10 + n % 10);
    }
}

/// A digit sequence has a non-negative value.
pub proof fn lemma_digits_val_nonneg(s: Seq<char>)
    requires
        all_digits(s),
    ensures
        digits_val(s) >= 0,
    decreases s.len(),
{
    if s.len() > 0 {
        assert(all_digits(s.drop_last())) by {
            assert(forall|i: int|
                0 <= i < s.len() - 1 ==> #[trigger] s.drop_last()[i] == s[i]);
        }
        lemma_digits_val_nonneg(s.drop_last());
    }
}

/// Extending a digit sequence on the right never decreases its value.
pub proof fn lemma_digits_val_prefix_le(s: Seq<char>, j: int)
    requires
        all_digits(s),
        0 <= j <= s.len(),
    ensures
        digits_val(s.take(j)) <= digits_val(s),
    decreases s.len() - j,
{
    if j < s.len() {
        lemma_digits_val_prefix_le(s, j + 1);
        let t = s.take(j + 1);
        assert(t.drop_last() =~= s.take(j));
        assert(all_digits(s.take(j))) by {
            assert(forall|i: int| 0 <= i < j ==> #[trigger] s.take(j)[i] == s[i]);
        }
        lemma_digits_val_nonneg(s.take(j));
        assert(digits_val(t) == digits_val(s.take(j)) * 10 + digit_val(t.last()));
        assert(digits_val(s.take(j)) * 10 >= digits_val(s.take(j))) by (nonlinear_arith)
            requires digits_val(s.take(j)) >= 0;
    } else {
        assert(s.take(j) =~= s);
    }
}

/// Appending a digit run after a sequence that does not end in a digit:
/// the longest digit suffix of the whole is exactly the appended run.
pub proof fn lemma_digit_suffix_len_append(a: Seq<char>, d: Seq<char>)
    requires
        all_digits(d),
        a.len() == 0 || !is_digit_char(a.last()),
    ensures
        digit_suffix_len(a + d) == d.len(),
    decreases d.len(),
{
    if d.len() == 0 {
        assert(a + d =~= a);
    } else {
        assert((a + d).drop_last() =~= a + d.drop_last());
        assert(all_digits(d.drop_last())) by {
            assert(forall|i: int|
                0 <= i < d.len() - 1 ==> #[trigger] d.drop_last()[i] == d[i]);
        }
        lemma_digit_suffix_len_append(a, d.drop_last());
        assert((a + d).last() == d.last());
        assert(is_digit_char(d.last()));
    }
}

/// The longest digit suffix is within bounds and consists of digits.
pub proof fn lemma_digit_suffix_chars(s: Seq<char>)
    ensures
        0 <= digit_suffix_len(s) <= s.len(),
        forall|i: int|
            s.len() - digit_suffix_len(s) <= i < s.len() ==> is_digit_char(#[trigger] s[i]),
    decreases s.len(),
{
    if s.len() == 0 || !is_digit_char(s.last()) {
    } else {
        lemma_digit_suffix_chars(s.drop_last());
        assert forall|i: int|
            s.len() - digit_suffix_len(s) <= i < s.len() implies is_digit_char(
            #[trigger] s[i],
        ) by {
            if i < s.len() - 1 {
                assert(s.drop_last()[i] == s[i]);
            }
        }
    }
}

/// Exec test for a digit character.
pub fn is_digit(c: char) -> (b: bool)
    ensures
        b == is_digit_char(c),
{
    '0' <= c && c <= '9'
}

/// The digit character of a value below ten.
pub fn digit_char(d: u64) -> (c: char)
    requires
        d < 10,
    ensures
        c == char_of_digit(d as int),
{
    match d {
        0 => '0',
        1 => '1',
        2 => '2',
        3 => '3',
        4 => '4',
        5 => '5',
        6 => '6',
        7 => '7',
        8 => '8',
        _ => '9',
    }
}

/// The numeric value of a digit character.
pub fn digit_value(c: char) -> (d: u64)
    requires
        is_digit_char(c),
    ensures
        d == digit_val(c),
        d < 10,
{
    (c as u32 - '0' as u32) as u64
}

/// Render `n` as its canonical decimal numeral.
pub fn render_u64(n: u64) -> (v: Vec<char>)
    ensures
        v@ == spec_digits(n as nat),
    decreases n,
{
    if n < 10 {
        let mut v: Vec<char> = Vec::new();
        v.push(digit_char(n));
        assert(v@ =~= spec_digits(n as nat));
        v
    } else {
        let mut v = render_u64(n / 10);
        v.push(digit_char(n % 10));
        assert(v@ =~= spec_digits(n as nat));
        v
    }
}

/// Read the digit run `s[lo..hi]` as a `u64`, detecting overflow exactly:
/// `None` means the run's value exceeds `u64::MAX`.
pub fn parse_digits(s: &Vec<char>, lo: usize, hi: usize) -> (r: Option<u64>)
    requires
        lo <= hi <= s@.len(),
        all_digits(s@.subrange(lo as int, hi as int)),
    ensures
        match r {
            Some(v) => v == digits_val(s@.subrange(lo as int, hi as int)),
            None => digits_val(s@.subrange(lo as int, hi as int)) > u64::MAX,
        },
{
    let ghost run = s@.subrange(lo as int, hi as int);
    let mut acc: u64 = 0;
    let mut i: usize = lo;
    while i < hi
        invariant
            lo <= i <= hi <= s@.len(),
            all_digits(run),
            run == s@.subrange(lo as int, hi as int),
            acc == digits_val(run.take(i - lo)),
        decreases hi - i,
    {
        assert(run[i - lo] == s@[i as int]);
        assert(is_digit_char(s@[i as int]));
        let d = digit_value(s[i]);
        let ghost taken = run.take(i + 1 - lo);
        proof {
            assert(taken.drop_last() =~= run.take(i - lo));
            assert(taken.last() == s@[i as int]);
        }
        if acc > u64::MAX / 10 || (acc == u64::MAX / 10 && d > u64::MAX % 10) {
            proof {
                assert(digits_val(taken) == acc * 10 + d);
                assert(acc * 10 + d > u64::MAX) by (nonlinear_arith)
                    requires
                        acc > u64::MAX / 10 || (acc == u64::MAX / 10 && d > u64::MAX % 10),
                        d < 10,
                ;
                lemma_digits_val_prefix_le(run, i + 1 - lo);
            }
            return None;
        }
        proof {
            assert(acc * 10 + d <= u64::MAX) by (nonlinear_arith)
                requires
                    acc <= u64::MAX / 10,
                    acc == u64::MAX / 10 ==> d <= u64::MAX % 10,
                    d < 10,
            ;
        }
        acc = acc * 10 + d;
        i = i + 1;
    }
    proof {
        assert(run.take(hi - lo) =~= run);
    }
    Some(acc)
}

} // verus!
