//! Text as sequences of characters: decimal numbers and substring replacement.

use vstd::prelude::*;
use vstd::string::*;

verus! {

/// `String::push` appends one character at the end of the string.
pub assume_specification[ String::push ](s: &mut String, c: char)
    ensures
        final(s)@ == old(s)@.push(c),
;

/// The characters of `s`, in order.
pub fn chars_of(s: &str) -> (chars: Vec<char>)
    ensures
        chars@ == s@,
{
    let mut chars: Vec<char> = Vec::new();
    for c in it: s.chars()
        invariant
            chars@ == it.seq().take(it.index() as int),
            it.seq() == s@,
    {
        chars.push(c);
        assert(it.seq().take(it.index() + 1) =~= it.seq().take(it.index() as int).push(c));
    }
    assert(s@.take(s@.len() as int) =~= s@);
    chars
}

/// The decimal digit for `d`, which is at most 9.
pub open spec fn digit(d: int) -> char {
    (48 + d) as char
}

pub open spec fn is_digit(c: char) -> bool {
    '0' <= c && c <= '9'
}

/// `n` in decimal, without leading zeros.
pub open spec fn decimal(n: nat) -> Seq<char>
    decreases n,
{
    if n < 10 {
        seq![digit(n as int)]
    } else {
        decimal(n / 10).push(digit((n % 10) as int))
    }
}

/// `n` in decimal, with a minus sign if it is negative.
pub open spec fn int_text(n: int) -> Seq<char> {
    if n < 0 {
        seq!['-'] + decimal((-n) as nat)
    } else {
        decimal(n as nat)
    }
}

fn push_decimal(out: &mut String, n: u64)
    ensures
        final(out)@ == old(out)@ + decimal(n as nat),
    decreases n,
{
    if n >= 10 {
        push_decimal(out, n / 10);
    }
    let d: u8 = (n % 10) as u8;
    let c: char = (48u8 + d) as char;
    out.push(c);
    assert(out@ =~= old(out)@ + decimal(n as nat));
}

/// `n` in decimal.
pub fn u64_text(n: u64) -> (text: String)
    ensures
        text@ == int_text(n as int),
{
    let mut out = String::new();
    push_decimal(&mut out, n);
    assert(out@ =~= int_text(n as int));
    out
}

/// `n` in decimal, with a minus sign if it is negative.
pub fn i64_text(n: i64) -> (text: String)
    ensures
        text@ == int_text(n as int),
{
    let mut out = String::new();
    if n < 0 {
        out.push('-');
        let magnitude: u64 = (-(n as i128)) as u64;
        push_decimal(&mut out, magnitude);
    } else {
        push_decimal(&mut out, n as u64);
    }
    assert(out@ =~= int_text(n as int));
    out
}

/// The number that a run of decimal digits stands for.
pub open spec fn digits_value(s: Seq<char>) -> nat
    decreases s.len(),
{
    if s.len() == 0 {
        0
    } else {
        digits_value(s.drop_last()) * 10 + (s.last() as nat - 48) as nat
    }
}

pub open spec fn all_digits(s: Seq<char>) -> bool {
    forall|i: int| 0 <= i < s.len() ==> is_digit(#[trigger] s[i])
}

/// Whether `s` begins with a plus or a minus sign.
pub open spec fn is_signed(s: Seq<char>) -> bool {
    s.len() > 0 && (s[0] == '+' || s[0] == '-')
}

/// What stands behind the sign, if there is one.
pub open spec fn unsigned_part(s: Seq<char>) -> Seq<char> {
    if is_signed(s) {
        s.skip(1)
    } else {
        s
    }
}

/// The number that `s` writes: an optional sign, then one or more digits.
pub open spec fn int_value(s: Seq<char>) -> Option<int> {
    let digits = unsigned_part(s);
    if digits.len() == 0 || !all_digits(digits) {
        None
    } else if s[0] == '-' {
        Some(-digits_value(digits))
    } else {
        Some(digits_value(digits) as int)
    }
}

/// The 64-bit number that `s` writes, if it writes one that fits.
pub open spec fn i64_value(s: Seq<char>) -> Option<i64> {
    match int_value(s) {
        Some(n) => if i64::MIN <= n <= i64::MAX {
            Some(n as i64)
        } else {
            None
        },
        None => None,
    }
}

/// More digits never make a number smaller.
proof fn lemma_digits_value_grows(s: Seq<char>, k: int)
    requires
        0 <= k <= s.len(),
        all_digits(s),
    ensures
        digits_value(s.take(k)) <= digits_value(s),
    decreases s.len(),
{
    if k == s.len() {
        assert(s.take(k) =~= s);
    } else {
        assert(s.drop_last().take(k) =~= s.take(k));
        assert(all_digits(s.drop_last()));
        lemma_digits_value_grows(s.drop_last(), k);
        assert(is_digit(s[s.len() - 1]));
    }
}

/// Reads a decimal number with an optional sign. Anything else, and a number
/// that does not fit in 64 bits, gives `None`.
#[verifier::spinoff_prover]
pub fn parse_i64(s: &str) -> (value: Option<i64>)
    ensures
        value == i64_value(s@),
{
    let chars = chars_of(s);
    let n: usize = chars.len();
    let signed: bool = n > 0 && (chars[0] == '+' || chars[0] == '-');
    let negative: bool = n > 0 && chars[0] == '-';
    let start: usize = if signed { 1 } else { 0 };
    let ghost digits = unsigned_part(s@);
    assert(digits =~= s@.skip(start as int));
    if start == n {
        return None;
    }
    let limit: u64 = if negative { 0x8000_0000_0000_0000 } else { 0x7fff_ffff_ffff_ffff };
    let mut magnitude: u64 = 0;
    let mut i: usize = start;
    assert(digits.take(0) =~= Seq::<char>::empty());
    while i < n
        invariant
            n == chars@.len(),
            chars@ == s@,
            digits == s@.skip(start as int),
            digits == unsigned_part(s@),
            start <= i <= n,
            start < n,
            negative == (s@[0] == '-'),
            limit == if negative { 0x8000_0000_0000_0000u64 } else { 0x7fff_ffff_ffff_ffffu64 },
            magnitude <= limit,
            magnitude == digits_value(digits.take(i - start)),
            all_digits(digits.take(i - start)),
        decreases n - i,
    {
        let c: char = chars[i];
        assert(c == digits[i - start]);
        if !(c >= '0' && c <= '9') {
            assert(!is_digit(digits[i - start]));
            return None;
        }
        let d: u64 = (c as u64) - 48;
        let ghost longer = digits.take(i - start + 1);
        proof {
            assert(longer =~= digits.take(i - start).push(c));
            lemma_value_of_longer(digits.take(i - start), c);
        }
        if magnitude > (limit - d) / 10 {
            proof {
                assert(magnitude * 10 + d > limit);
                if all_digits(digits) {
                    lemma_digits_value_grows(digits, i - start + 1);
                }
            }
            return None;
        }
        magnitude = magnitude * 10 + d;
        i = i + 1;
    }
    assert(digits.take(n - start) =~= digits);
    if negative {
        Some((-(magnitude as i128)) as i64)
    } else {
        Some(magnitude as i64)
    }
}

proof fn lemma_decimal_reads_back(n: nat)
    ensures
        decimal(n).len() > 0,
        all_digits(decimal(n)),
        digits_value(decimal(n)) == n,
    decreases n,
{
    reveal_with_fuel(digits_value, 2);
    if n < 10 {
        assert(decimal(n).drop_last() =~= Seq::<char>::empty());
    } else {
        lemma_decimal_reads_back(n / 10);
        assert(decimal(n).drop_last() =~= decimal(n / 10));
        assert forall|i: int| 0 <= i < decimal(n).len() implies is_digit(#[trigger] decimal(n)[i]) by {
            if i < decimal(n / 10).len() {
                assert(decimal(n)[i] == decimal(n / 10)[i]);
            }
        }
    }
}

/// A number written in decimal is read back as that number.
pub proof fn law_number_text_reads_back(n: i64)
    ensures
        i64_value(int_text(n as int)) == Some(n),
{
    let text = int_text(n as int);
    if n < 0 {
        lemma_decimal_reads_back((-n) as nat);
        assert(text.skip(1) =~= decimal((-n) as nat));
    } else {
        lemma_decimal_reads_back(n as nat);
        assert(is_digit(text[0]));
    }
}

/// Different numbers have different texts.
pub proof fn law_number_texts_differ(m: i64, n: i64)
    ensures
        int_text(m as int) == int_text(n as int) <==> m == n,
{
    law_number_text_reads_back(m);
    law_number_text_reads_back(n);
}

/// `s` with every occurrence of `pat` replaced by `to`. Occurrences are taken
/// from the left and do not overlap, and what was put in is not looked at again.
pub open spec fn replaced(s: Seq<char>, pat: Seq<char>, to: Seq<char>) -> Seq<char>
    decreases s.len(),
{
    if pat.len() == 0 || s.len() < pat.len() {
        s
    } else if s.take(pat.len() as int) == pat {
        to + replaced(s.skip(pat.len() as int), pat, to)
    } else {
        seq![s[0]] + replaced(s.skip(1), pat, to)
    }
}

/// `pat` stands somewhere in `s`.
pub open spec fn occurs(s: Seq<char>, pat: Seq<char>) -> bool {
    exists|at: int| #[trigger] stands_at(s, pat, at)
}

/// `pat` stands in `s` at position `at`.
pub open spec fn stands_at(s: Seq<char>, pat: Seq<char>, at: int) -> bool {
    0 <= at <= s.len() - pat.len() && s.subrange(at, at + pat.len()) == pat
}

/// The two texts have no character in common.
pub open spec fn disjoint(a: Seq<char>, b: Seq<char>) -> bool {
    forall|i: int, j: int| 0 <= i < a.len() && 0 <= j < b.len() ==> #[trigger] a[i] != #[trigger] b[j]
}

/// What a replacement begins with was there before, up to what was put in.
proof fn lemma_replaced_front(s: Seq<char>, pat: Seq<char>, to: Seq<char>, n: int)
    requires
        to.len() > 0,
        0 <= n <= replaced(s, pat, to).len(),
        disjoint(replaced(s, pat, to).take(n), to),
    ensures
        n <= s.len(),
        s.take(n) == replaced(s, pat, to).take(n),
    decreases s.len(),
{
    let out = replaced(s, pat, to);
    if n > 0 && pat.len() > 0 && s.len() >= pat.len() {
        assert(out.take(n)[0] == out[0]);
        if s.take(pat.len() as int) == pat {
            assert(out[0] == to[0]);
        } else {
            let rest = replaced(s.skip(1), pat, to);
            assert(out =~= seq![s[0]] + rest);
            assert forall|i: int, j: int| 0 <= i < n - 1 && 0 <= j < to.len() implies #[trigger] rest.take(
                n - 1,
            )[i] != #[trigger] to[j] by {
                assert(out.take(n)[i + 1] == rest[i]);
            }
            lemma_replaced_front(s.skip(1), pat, to, n - 1);
            assert forall|i: int| 0 <= i < n implies s.take(n)[i] == out.take(n)[i] by {
                if i > 0 {
                    assert(s.skip(1).take(n - 1)[i - 1] == rest.take(n - 1)[i - 1]);
                }
            }
            assert(s.take(n) =~= out.take(n));
        }
    } else {
        assert(s.take(n) =~= out.take(n));
    }
}

/// Once a pattern is replaced by a text that has no character in common with it, the
/// pattern occurs no more.
pub proof fn law_replaced_pattern_is_gone(s: Seq<char>, pat: Seq<char>, to: Seq<char>)
    requires
        pat.len() > 0,
        to.len() > 0,
        disjoint(pat, to),
    ensures
        !occurs(replaced(s, pat, to), pat),
    decreases s.len(),
{
    let out = replaced(s, pat, to);
    let m = pat.len() as int;
    if s.len() >= m {
        let taken = s.take(m) == pat;
        let front = if taken { to } else { seq![s[0]] };
        let behind = if taken { s.skip(m) } else { s.skip(1) };
        let rest = replaced(behind, pat, to);
        law_replaced_pattern_is_gone(behind, pat, to);
        assert(out =~= front + rest);
        assert forall|at: int| !(#[trigger] stands_at(out, pat, at)) by {
            if stands_at(out, pat, at) {
                let here = out.subrange(at, at + m);
                if at >= front.len() {
                    assert(rest.subrange(at - front.len(), at - front.len() + m) =~= here);
                    assert(stands_at(rest, pat, at - front.len()));
                } else if taken {
                    assert(here[0] == to[at]);
                    assert(here[0] == pat[0]);
                } else {
                    assert(here =~= out.take(m));
                    lemma_replaced_front(s, pat, to, m);
                }
            }
        }
    }
}

/// Whether `pat` stands in `s` at position `at`.
fn occurs_at(s: &Vec<char>, at: usize, pat: &Vec<char>) -> (occurs: bool)
    requires
        at <= s@.len(),
    ensures
        occurs == (s@.len() - at >= pat@.len() && s@.skip(at as int).take(pat@.len() as int) == pat@),
{
    let n: usize = s.len();
    if n - at < pat.len() {
        return false;
    }
    let mut k: usize = 0;
    let ghost here = s@.skip(at as int).take(pat@.len() as int);
    while k < pat.len()
        invariant
            n == s@.len(),
            at + pat@.len() <= n,
            here == s@.skip(at as int).take(pat@.len() as int),
            k <= pat@.len(),
            forall|j: int| 0 <= j < k ==> here[j] == pat@[j],
        decreases pat@.len() - k,
    {
        if s[at + k] != pat[k] {
            assert(here[k as int] != pat@[k as int]);
            return false;
        }
        k = k + 1;
    }
    assert(here =~= pat@);
    true
}

/// Replaces every occurrence of `pat` in `s` by `to`.
pub fn replace_all(s: &str, pat: &str, to: &str) -> (result: String)
    requires
        pat@.len() > 0,
    ensures
        result@ == replaced(s@, pat@, to@),
{
    let text = chars_of(s);
    let wanted = chars_of(pat);
    let mut out = String::new();
    let mut i: usize = 0;
    assert(s@.skip(0) =~= s@);
    assert(out@ + replaced(s@.skip(0), pat@, to@) =~= replaced(s@, pat@, to@));
    while i < text.len()
        invariant
            text@ == s@,
            wanted@ == pat@,
            wanted@.len() > 0,
            i <= text@.len(),
            out@ + replaced(s@.skip(i as int), pat@, to@) == replaced(s@, pat@, to@),
        decreases text@.len() - i,
    {
        let ghost rest = s@.skip(i as int);
        let ghost before = out@;
        if occurs_at(&text, i, &wanted) {
            out.append(to);
            i = i + wanted.len();
            assert(rest.skip(pat@.len() as int) =~= s@.skip(i as int));
            assert(out@ + replaced(s@.skip(i as int), pat@, to@) =~= before + replaced(rest, pat@, to@));
        } else {
            out.push(text[i]);
            i = i + 1;
            assert(rest.skip(1) =~= s@.skip(i as int));
            assert(out@ + replaced(s@.skip(i as int), pat@, to@) =~= before + replaced(rest, pat@, to@));
        }
    }
    assert(s@.skip(i as int) =~= Seq::<char>::empty());
    assert(out@ =~= replaced(s@, pat@, to@));
    out
}

/// The pieces one behind the other.
pub fn join2(a: &str, b: &str) -> (result: String)
    ensures
        result@ == a@ + b@,
{
    let mut out = String::new();
    out.append(a);
    out.append(b);
    assert(out@ =~= a@ + b@);
    out
}

/// The pieces one behind the other.
pub fn join3(a: &str, b: &str, c: &str) -> (result: String)
    ensures
        result@ == a@ + b@ + c@,
{
    let mut out = join2(a, b);
    out.append(c);
    out
}

/// A number below ten is written with one digit, its own; a larger one with the text of
/// its tens and the digit of its ones; and a negative one with a minus sign and the text
/// of its opposite.
pub proof fn law_number_text_is_decimal(tens: int, ones: int)
    requires
        0 <= tens,
        0 <= ones <= 9,
    ensures
        int_text(ones).len() == 1,
        int_text(ones)[0] as int == '0' as int + ones,
        tens > 0 ==> int_text(10 * tens + ones) == int_text(tens) + int_text(ones),
        10 * tens + ones > 0 ==> int_text(-(10 * tens + ones)) == seq!['-'] + int_text(
            10 * tens + ones,
        ),
{
    let n = 10 * tens + ones;
    if tens > 0 {
        assert(n / 10 == tens && n % 10 == ones);
        assert(int_text(n) =~= int_text(tens) + int_text(ones));
    }
}

/// Both functions write the number that they are given.
pub proof fn law_numbers_are_written(n: i64, n_text: String, m: u64, m_text: String)
    requires
        call_ensures(i64_text, (n,), n_text),
        call_ensures(u64_text, (m,), m_text),
    ensures
        i64_value(n_text@) == Some(n),
        m <= i64::MAX ==> i64_value(m_text@) == Some(m as i64),
        n_text@ == int_text(n as int),
        m_text@ == int_text(m as int),
{
    law_number_text_reads_back(n);
    if m <= i64::MAX {
        law_number_text_reads_back(m as i64);
    }
}

/// One digit is read as that digit, with its sign.
pub proof fn law_digit_is_read(c: char)
    requires
        '0' <= c <= '9',
    ensures
        i64_value(seq![c]) == Some((c as int - '0' as int) as i64),
        i64_value(seq!['+', c]) == Some((c as int - '0' as int) as i64),
        i64_value(seq!['-', c]) == Some(-(c as int - '0' as int) as i64),
{
    reveal_with_fuel(digits_value, 2);
    let s = seq![c];
    assert(s.drop_last() =~= Seq::empty());
    assert(seq!['+', c].skip(1) =~= s);
    assert(seq!['-', c].skip(1) =~= s);
    assert(is_digit(s[0]));
    assert(all_digits(s));
}

proof fn lemma_value_of_longer(digits: Seq<char>, c: char)
    ensures
        digits_value(digits.push(c)) == digits_value(digits) * 10 + (c as nat - 48) as nat,
        all_digits(digits.push(c)) <==> all_digits(digits) && is_digit(c),
{
    let longer = digits.push(c);
    assert(longer.drop_last() =~= digits);
    if all_digits(longer) {
        assert forall|i: int| 0 <= i < digits.len() implies is_digit(#[trigger] digits[i]) by {
            assert(longer[i] == digits[i]);
        }
        assert(is_digit(longer[digits.len() as int]));
    }
    if all_digits(digits) && is_digit(c) {
        assert forall|i: int| 0 <= i < longer.len() implies is_digit(#[trigger] longer[i]) by {
            if i < digits.len() {
                assert(longer[i] == digits[i]);
            }
        }
    }
}

/// A digit behind a number is read as ten times the number and the digit, as long as
/// that fits. What isn't a number, or doesn't fit, becomes none by more characters; and
/// a number followed by anything but a digit is none.
pub proof fn law_longer_number_is_read(s: Seq<char>, c: char)
    requires
        s.len() > 1 || (s.len() == 1 && s[0] != '+' && s[0] != '-'),
    ensures
        i64_value(s) is None ==> i64_value(s.push(c)) is None,
        !('0' <= c <= '9') ==> i64_value(s.push(c)) is None,
        i64_value(s) matches Some(n) ==> ('0' <= c <= '9' ==> {
            let d = c as int - '0' as int;
            let longer = if s[0] == '-' {
                10 * n - d
            } else {
                10 * n + d
            };
            i64_value(s.push(c)) == if i64::MIN <= longer <= i64::MAX {
                Some(longer as i64)
            } else {
                None
            }
        }),
{
    let digits = unsigned_part(s);
    assert(s.push(c)[0] == s[0]);
    assert(unsigned_part(s.push(c)) =~= digits.push(c));
    lemma_value_of_longer(digits, c);
}

/// A text is a number only if it is an optional sign and digits, one at least.
pub proof fn law_only_numbers_are_read(s: Seq<char>, i: int)
    ensures
        s.len() == 0 ==> i64_value(s) is None,
        s == seq!['+'] || s == seq!['-'] ==> i64_value(s) is None,
        0 < i < s.len() && !('0' <= s[i] <= '9') ==> i64_value(s) is None,
        s.len() > 0 && !('0' <= s[0] <= '9') && s[0] != '+' && s[0] != '-' ==> i64_value(s) is None,
{
    if 0 < i < s.len() && !('0' <= s[i] <= '9') {
        if is_signed(s) {
            assert(s.skip(1)[i - 1] == s[i]);
        }
        assert(!all_digits(unsigned_part(s)));
    }
    if s.len() > 0 && !('0' <= s[0] <= '9') && s[0] != '+' && s[0] != '-' {
        assert(!is_digit(s[0]));
        assert(!all_digits(unsigned_part(s)));
    }
}

/// `parse_i64` reads what is written, and nothing else.
pub proof fn law_parsed_is_what_is_written(s: &str, value: Option<i64>)
    requires
        call_ensures(parse_i64, (s,), value),
    ensures
        value == i64_value(s@),
        forall|n: i64| s@ == #[trigger] int_text(n as int) ==> value == Some(n),
{
    assert forall|n: i64| s@ == #[trigger] int_text(n as int) implies value == Some(n) by {
        law_number_text_reads_back(n);
    }
}

/// A text in which the pattern doesn't occur stays as it is.
pub proof fn law_replacing_nothing_changes_nothing(s: Seq<char>, pat: Seq<char>, to: Seq<char>)
    requires
        !occurs(s, pat),
    ensures
        replaced(s, pat, to) == s,
    decreases s.len(),
{
    if pat.len() > 0 && s.len() >= pat.len() {
        assert(s.take(pat.len() as int) =~= s.subrange(0, pat.len() as int));
        assert(!stands_at(s, pat, 0));
        assert forall|at: int| !(#[trigger] stands_at(s.skip(1), pat, at)) by {
            if stands_at(s.skip(1), pat, at) {
                assert(s.subrange(at + 1, at + 1 + pat.len()) =~= s.skip(1).subrange(
                    at,
                    at + pat.len(),
                ));
                assert(stands_at(s, pat, at + 1));
            }
        }
        law_replacing_nothing_changes_nothing(s.skip(1), pat, to);
        assert(seq![s[0]] + s.skip(1) =~= s);
    }
}

/// The leftmost occurrence of the pattern is replaced, what stands before it stays, and
/// what stands behind it is treated alike.
pub proof fn law_leftmost_occurrence_is_replaced(
    s: Seq<char>,
    pat: Seq<char>,
    to: Seq<char>,
    at: int,
)
    requires
        pat.len() > 0,
        stands_at(s, pat, at),
        forall|k: int| 0 <= k < at ==> !(#[trigger] stands_at(s, pat, k)),
    ensures
        replaced(s, pat, to) == s.take(at) + to + replaced(s.skip(at + pat.len()), pat, to),
    decreases at,
{
    assert(s.take(pat.len() as int) =~= s.subrange(0, pat.len() as int));
    if at == 0 {
        assert(s.take(0) + to =~= to);
    } else {
        assert(!stands_at(s, pat, 0));
        let rest = s.skip(1);
        assert(rest.subrange(at - 1, at - 1 + pat.len()) =~= s.subrange(at, at + pat.len()));
        assert forall|k: int| 0 <= k < at - 1 implies !(#[trigger] stands_at(rest, pat, k)) by {
            if stands_at(rest, pat, k) {
                assert(s.subrange(k + 1, k + 1 + pat.len()) =~= rest.subrange(k, k + pat.len()));
                assert(stands_at(s, pat, k + 1));
            }
        }
        law_leftmost_occurrence_is_replaced(rest, pat, to, at - 1);
        assert(rest.skip(at - 1 + pat.len()) =~= s.skip(at + pat.len()));
        assert(seq![s[0]] + (rest.take(at - 1) + to + replaced(s.skip(at + pat.len()), pat, to))
            =~= s.take(at) + to + replaced(s.skip(at + pat.len()), pat, to));
    }
}

/// `replace_all` replaces in the text that it is given, the pattern that it is given, by
/// the text that it is given.
pub proof fn law_all_is_replaced(s: &str, pat: &str, to: &str, result: String)
    requires
        pat@.len() > 0,
        call_ensures(replace_all, (s, pat, to), result),
    ensures
        result@ == replaced(s@, pat@, to@),
        !occurs(s@, pat@) ==> result@ == s@,
        s@ == pat@ ==> result@ == to@,
        to@.len() > 0 && disjoint(pat@, to@) ==> !occurs(result@, pat@),
{
    if !occurs(s@, pat@) {
        law_replacing_nothing_changes_nothing(s@, pat@, to@);
    }
    if s@ == pat@ {
        assert(s@.subrange(0, pat@.len() as int) =~= pat@);
        assert(stands_at(s@, pat@, 0));
        law_leftmost_occurrence_is_replaced(s@, pat@, to@, 0);
        assert(s@.skip(pat@.len() as int) =~= Seq::empty());
        assert(s@.take(0) + to@ + Seq::<char>::empty() =~= to@);
    }
    if to@.len() > 0 && disjoint(pat@, to@) {
        law_replaced_pattern_is_gone(s@, pat@, to@);
    }
}

/// Pieces are joined in the order in which they are given, with nothing between them.
pub proof fn law_joined_is_one_behind_the_other(a: &str, b: &str, c: &str, ab: String, abc: String)
    requires
        call_ensures(join2, (a, b), ab),
        call_ensures(join3, (a, b, c), abc),
    ensures
        ab@.len() == a@.len() + b@.len(),
        ab@.take(a@.len() as int) == a@,
        ab@.skip(a@.len() as int) == b@,
        abc@ == ab@ + c@,
{
    assert(ab@.take(a@.len() as int) =~= a@);
    assert(ab@.skip(a@.len() as int) =~= b@);
}

/// The characters of a text are all of them, in their order.
pub proof fn law_characters_are_those_of_the_text(s: &str, chars: Vec<char>)
    requires
        call_ensures(chars_of, (s,), chars),
    ensures
        chars@ == s@,
{
}

} // verus!
