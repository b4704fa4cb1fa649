//! Character classes and small string utilities shared by the tokenizers,
//! the parser and the syntax tree.
use vstd::prelude::*;
use vstd::string::StringExecFns;

verus! {

/// Whether a character has the Unicode `White_Space` property.
pub uninterp spec fn is_whitespace_char(c: char) -> bool;

/// Whether a character belongs to one of the Unicode number categories.
pub uninterp spec fn is_numeric_char(c: char) -> bool;

/// Whether a character has the Unicode `Alphabetic` property.
pub uninterp spec fn is_alphabetic_char(c: char) -> bool;

/// The `Debug` form of a string: the text between double quotes, with the
/// characters that need it escaped.
pub uninterp spec fn debug_quoted(s: Seq<char>) -> Seq<char>;

/// `char::is_whitespace` is a pure test on the character; its answer is
/// named [`is_whitespace_char`].
pub assume_specification[ char::is_whitespace ](c: char) -> (b: bool)
    ensures
        b == is_whitespace_char(c),
;

/// `char::is_numeric` is a pure test on the character; its answer is named
/// [`is_numeric_char`].
pub assume_specification[ char::is_numeric ](c: char) -> (b: bool)
    ensures
        b == is_numeric_char(c),
;

/// `char::is_alphabetic` is a pure test on the character; its answer is
/// named [`is_alphabetic_char`].
pub assume_specification[ char::is_alphabetic ](c: char) -> (b: bool)
    ensures
        b == is_alphabetic_char(c),
;

/// `String::push` appends one character to the end of the string.
pub assume_specification[ String::push ](s: &mut String, c: char)
    ensures
        final(s)@ == old(s)@.push(c),
;

/// Formats a string slice with `{:?}`; the result depends on the text alone
/// and is named [`debug_quoted`].
#[verifier::external_body]
pub(crate) fn debug_text(s: &str) -> (r: String)
    ensures
        r@ == debug_quoted(s@),
{
    format!("{:?}", s)
}

/// A string holding exactly the characters of `chars`, in order.
pub fn string_from_chars(chars: &Vec<char>) -> (s: String)
    ensures
        s@ == chars@,
{
    let mut s = String::new();
    let mut i: usize = 0;
    while i < chars.len()
        invariant
            i <= chars.len(),
            s@ == chars@.take(i as int),
        decreases chars.len() - i,
    {
        s.push(chars[i]);
        i += 1;
    }
    assert(chars@.take(chars@.len() as int) == chars@);
    s
}

/// A string holding the single character `c`.
pub fn string_from_char(c: char) -> (s: String)
    ensures
        s@ == seq![c],
{
    let mut s = String::new();
    s.push(c);
    s
}

/// Whether `s` spells exactly the text `word`.
pub fn text_is(s: &String, word: &str) -> (b: bool)
    ensures
        b == (s@ == word@),
{
    let w = String::from_str(word);
    *s == w
}

/// The number of leading characters of `s` that satisfy `p`.
pub open spec fn run_length(s: Seq<char>, p: spec_fn(char) -> bool) -> nat
    decreases s.len(),
{
    if s.len() > 0 && p(s[0]) {
        1 + run_length(s.skip(1), p)
    } else {
        0
    }
}

/// A run ends inside the text, every character of it satisfies the
/// predicate, and the character after it, if there is one, does not.
pub proof fn lemma_run_length(s: Seq<char>, p: spec_fn(char) -> bool)
    ensures
        run_length(s, p) <= s.len(),
        forall|i: int| 0 <= i < run_length(s, p) ==> p(#[trigger] s[i]),
        run_length(s, p) < s.len() ==> !p(s[run_length(s, p) as int]),
    decreases s.len(),
{
    if s.len() > 0 && p(s[0]) {
        let t = s.skip(1);
        lemma_run_length(t, p);
        assert forall|i: int| 0 <= i < run_length(s, p) implies p(#[trigger] s[i]) by {
            if i > 0 {
                assert(s[i] == t[i - 1]);
            }
        }
        if run_length(s, p) < s.len() {
            assert(s[run_length(s, p) as int] == t[run_length(t, p) as int]);
        }
    }
}

/// The only length with the properties of a run is the run's length.
pub proof fn lemma_run_length_is(s: Seq<char>, p: spec_fn(char) -> bool, k: int)
    requires
        0 <= k <= s.len(),
        forall|i: int| 0 <= i < k ==> p(#[trigger] s[i]),
        k < s.len() ==> !p(s[k]),
    ensures
        run_length(s, p) == k,
    decreases s.len(),
{
    if s.len() > 0 && p(s[0]) {
        let t = s.skip(1);
        assert forall|i: int| 0 <= i < k - 1 implies p(#[trigger] t[i]) by {
            assert(t[i] == s[i + 1]);
        }
        lemma_run_length_is(t, p, k - 1);
    }
}

/// The character that writes the digit `d`.
pub open spec fn digit_char(d: int) -> char {
    if d == 0 {
        '0'
    } else if d == 1 {
        '1'
    } else if d == 2 {
        '2'
    } else if d == 3 {
        '3'
    } else if d == 4 {
        '4'
    } else if d == 5 {
        '5'
    } else if d == 6 {
        '6'
    } else if d == 7 {
        '7'
    } else if d == 8 {
        '8'
    } else {
        '9'
    }
}

/// The decimal digits of a natural number, most significant first, without
/// leading zeros.
pub open spec fn natural_digits(n: nat) -> Seq<char>
    decreases n,
{
    if n < 10 {
        seq![digit_char(n as int)]
    } else {
        natural_digits(n / 10).push(digit_char((n % 10) as int))
    }
}

/// The decimal spelling of an integer: a minus sign for a negative number,
/// then the digits of its magnitude.
pub open spec fn decimal(n: int) -> Seq<char> {
    if n < 0 {
        seq!['-'] + natural_digits((-n) as nat)
    } else {
        natural_digits(n as nat)
    }
}

/// The character that writes the digit `d`.
fn digit_to_char(d: u8) -> (c: char)
    requires
        d < 10,
    ensures
        c == digit_char(d as int),
{
    if d == 0 {
        '0'
    } else if d == 1 {
        '1'
    } else if d == 2 {
        '2'
    } else if d == 3 {
        '3'
    } else if d == 4 {
        '4'
    } else if d == 5 {
        '5'
    } else if d == 6 {
        '6'
    } else if d == 7 {
        '7'
    } else if d == 8 {
        '8'
    } else {
        '9'
    }
}

/// Writes an integer in decimal.
pub fn decimal_text(n: i32) -> (s: String)
    ensures
        s@ == decimal(n as int),
{
    let mut rest: u32 = if n < 0 {
        if n == i32::MIN {
            2147483648
        } else {
            (-n) as u32
        }
    } else {
        n as u32
    };
    let ghost magnitude: nat = rest as nat;
    let mut low_first: Vec<char> = Vec::new();
    loop
        invariant_except_break
            natural_digits(magnitude) == natural_digits(rest as nat) + low_first@.reverse(),
        ensures
            natural_digits(magnitude) == low_first@.reverse(),
        decreases rest,
    {
        let d = digit_to_char((rest % 10) as u8);
        let ghost low = low_first@;
        let ghost high = natural_digits((rest / 10) as nat);
        proof {
            assert(low.push(d).reverse() =~= seq![d] + low.reverse());
            if rest >= 10 {
                assert(natural_digits(rest as nat) == high.push(d));
                assert(high.push(d) + low.reverse() =~= high + (seq![d] + low.reverse()));
            } else {
                assert(natural_digits(rest as nat) == seq![d]);
            }
        }
        low_first.push(d);
        if rest < 10 {
            break ;
        }
        rest = rest / 10;
    }
    let mut s = String::new();
    if n < 0 {
        s.push('-');
    }
    let ghost sign = s@;
    let mut i: usize = low_first.len();
    while i > 0
        invariant
            i <= low_first.len(),
            s@ == sign + low_first@.reverse().take(low_first.len() - i),
        decreases i,
    {
        i -= 1;
        s.push(low_first[i]);
        proof {
            let r = low_first@.reverse();
            let k = low_first.len() - i;
            assert(r.take(k) =~= r.take(k - 1).push(r[k - 1]));
        }
    }
    proof {
        let r = low_first@.reverse();
        assert(r.take(r.len() as int) =~= r);
    }
    s
}

/// Whether a character is one of the ten ASCII digits.
pub open spec fn is_digit(c: char) -> bool {
    '0' <= c && c <= '9'
}

/// The number that an ASCII digit stands for.
pub open spec fn digit_value(c: char) -> int {
    c as int - '0' as int
}

/// The number written by a run of ASCII digits.
pub open spec fn digits_value(s: Seq<char>) -> int
    decreases s.len(),
{
    if s.len() == 0 {
        0
    } else {
        10 * digits_value(s.drop_last()) + digit_value(s.last())
    }
}

/// Whether every character of `s` is an ASCII digit.
pub open spec fn all_digits(s: Seq<char>) -> bool {
    forall|i: int| 0 <= i < s.len() ==> is_digit(#[trigger] s[i])
}

/// Whether `s` starts with a plus or minus sign.
pub open spec fn has_sign(s: Seq<char>) -> bool {
    s.len() > 0 && (s[0] == '-' || s[0] == '+')
}

/// The 32-bit signed integer that `s` writes in decimal, if it writes one:
/// an optional sign, then at least one ASCII digit and nothing else, with a
/// value between `i32::MIN` and `i32::MAX`.
pub open spec fn integer_of(s: Seq<char>) -> Option<int> {
    let body = if has_sign(s) {
        s.skip(1)
    } else {
        s
    };
    let magnitude = digits_value(body);
    let value = if has_sign(s) && s[0] == '-' {
        -magnitude
    } else {
        magnitude
    };
    if body.len() > 0 && all_digits(body) && i32::MIN <= value <= i32::MAX {
        Some(value)
    } else {
        None
    }
}

/// A run of digits writes a number that is not negative, and no smaller
/// than the number written by the run without its last digit.
proof fn lemma_digits_value_bounds(s: Seq<char>)
    requires
        all_digits(s),
    ensures
        digits_value(s) >= 0,
        s.len() > 0 ==> digits_value(s) >= digits_value(s.drop_last()),
    decreases s.len(),
{
    if s.len() > 0 {
        assert(is_digit(s.last()));
        assert forall|i: int| 0 <= i < s.drop_last().len() implies is_digit(
            #[trigger] s.drop_last()[i],
        ) by {
            assert(s.drop_last()[i] == s[i]);
        }
        lemma_digits_value_bounds(s.drop_last());
    }
}

/// The digits of a natural number are ASCII digits, at least one of them,
/// and they write that number.
pub proof fn lemma_natural_digits(n: nat)
    ensures
        natural_digits(n).len() > 0,
        all_digits(natural_digits(n)),
        digits_value(natural_digits(n)) == n,
    decreases n,
{
    let digits = natural_digits(n);
    if n < 10 {
        assert(is_digit(digit_char(n as int)));
        assert(digit_value(digit_char(n as int)) == n);
        assert(digits.drop_last() =~= Seq::<char>::empty());
        assert(digits_value(digits.drop_last()) == 0);
    } else {
        let high = natural_digits(n / 10);
        let low = digit_char((n % 10) as int);
        lemma_natural_digits(n / 10);
        assert(is_digit(low));
        assert(digit_value(low) == n % 10);
        assert(digits.drop_last() =~= high);
        assert forall|i: int| 0 <= i < digits.len() implies is_digit(#[trigger] digits[i]) by {
            if i < high.len() {
                assert(digits[i] == high[i]);
            }
        }
    }
}

/// The decimal spelling of a 32-bit signed integer reads back as that
/// integer.
pub proof fn lemma_decimal_reads_back(v: int)
    requires
        i32::MIN <= v <= i32::MAX,
    ensures
        integer_of(decimal(v)) == Some(v),
{
    if v < 0 {
        let digits = natural_digits((-v) as nat);
        lemma_natural_digits((-v) as nat);
        assert(decimal(v).skip(1) =~= digits);
    } else {
        let digits = natural_digits(v as nat);
        lemma_natural_digits(v as nat);
        assert(is_digit(digits[0]));
    }
}

/// Reads a 32-bit signed integer written in decimal.
pub fn parse_integer(text: &str) -> (r: Option<i32>)
    ensures
        match integer_of(text@) {
            Some(v) => r == Some(v as i32) && v == r->0 as int,
            None => r is None,
        },
{
    broadcast use vstd::string::group_string_axioms;

    let ghost s = text@;
    let ghost body = if has_sign(s) {
        s.skip(1)
    } else {
        s
    };
    let ghost skipped: int = if has_sign(s) {
        1
    } else {
        0
    };
    let mut magnitude: u64 = 0;
    let mut negative = false;
    let mut first = true;
    let mut any_digit = false;
    let mut too_large = false;
    for c in it: text.chars()
        invariant
            it.seq() == s,
            s == text@,
            body == s.skip(skipped),
            skipped == (if has_sign(s) {
                1int
            } else {
                0int
            }),
            first <==> it.index() == 0,
            !first ==> it.index() >= skipped,
            !first ==> negative == (has_sign(s) && s[0] == '-'),
            !first ==> all_digits(body.take(it.index() - skipped)),
            !first ==> any_digit == (it.index() - skipped > 0),
            first ==> !any_digit && !too_large && magnitude == 0,
            !too_large ==> magnitude <= 2147483648,
            !first && !too_large ==> magnitude as int == digits_value(
                body.take(it.index() - skipped),
            ),
            !first && too_large ==> digits_value(body.take(it.index() - skipped)) > 2147483648,
    {
        let ghost idx = it.index();
        assert(c == s[idx]);
        if first && (c == '-' || c == '+') {
            negative = c == '-';
            assert(body.take(0) =~= Seq::<char>::empty());
        } else if c >= '0' && c <= '9' {
            let ghost before = body.take(idx - skipped);
            let ghost after = body.take(idx - skipped + 1);
            proof {
                if first {
                    assert(before =~= Seq::<char>::empty());
                }
                assert(after.drop_last() =~= before);
                assert(after.last() == c);
                assert forall|i: int| 0 <= i < after.len() implies is_digit(
                    #[trigger] after[i],
                ) by {
                    if i < before.len() {
                        assert(after[i] == before[i]);
                    }
                }
                lemma_digits_value_bounds(after);
            }
            if first {
                negative = false;
            }
            any_digit = true;
            if !too_large {
                let d: u64 = (c as u32 - '0' as u32) as u64;
                magnitude = magnitude * 10 + d;
                if magnitude > 2147483648 {
                    too_large = true;
                }
            }
        } else {
            proof {
                assert(body[idx - skipped] == c);
                assert(!is_digit(c));
                assert(!all_digits(body));
            }
            return None;
        }
        first = false;
    }
    proof {
        if !first {
            assert(body.take(body.len() as int) =~= body);
        } else {
            assert(s.len() == 0);
        }
    }
    if !any_digit || too_large {
        return None;
    }
    if negative {
        Some((0 - (magnitude as i64)) as i32)
    } else if magnitude <= 2147483647 {
        Some(magnitude as i32)
    } else {
        None
    }
}

} // verus!
