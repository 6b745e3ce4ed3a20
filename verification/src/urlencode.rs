//! Percent-encoding of texts that stand inside a URL's query string.

use vstd::prelude::*;
use vstd::string::*;

use crate::text::chars_of;

verus! {

/// The characters that stand for themselves everywhere in a URL.
pub open spec fn is_unreserved(c: char) -> bool {
    ||| 'A' <= c <= 'Z'
    ||| 'a' <= c <= 'z'
    ||| '0' <= c <= '9'
    ||| c == '-'
    ||| c == '_'
    ||| c == '.'
    ||| c == '~'
}

/// The upper-case hexadecimal digit for `d`, which is at most 15.
pub open spec fn hex_digit(d: int) -> char {
    if d < 10 {
        (48 + d) as char
    } else {
        (55 + d) as char
    }
}

/// `n` in hexadecimal, without leading zeros.
pub open spec fn hex(n: nat) -> Seq<char>
    decreases n,
{
    if n < 16 {
        seq![hex_digit(n as int)]
    } else {
        hex(n / 16).push(hex_digit((n % 16) as int))
    }
}

/// `n` in hexadecimal, with at least two digits.
pub open spec fn hex_pair(n: nat) -> Seq<char> {
    if n < 16 {
        seq!['0'] + hex(n)
    } else {
        hex(n)
    }
}

/// A character as it stands in a query string.
pub open spec fn encoded_char(c: char) -> Seq<char> {
    if is_unreserved(c) {
        seq![c]
    } else {
        seq!['%'] + hex_pair(c as nat)
    }
}

/// A text as it stands in a query string.
pub open spec fn url_encoded(s: Seq<char>) -> Seq<char>
    decreases s.len(),
{
    if s.len() == 0 {
        Seq::empty()
    } else {
        url_encoded(s.drop_last()) + encoded_char(s.last())
    }
}

fn push_hex(out: &mut String, n: u32)
    ensures
        final(out)@ == old(out)@ + hex(n as nat),
    decreases n,
{
    if n >= 16 {
        push_hex(out, n / 16);
    }
    let d: u8 = (n % 16) as u8;
    let c: char = if d < 10 { (48u8 + d) as char } else { (55u8 + d) as char };
    out.push(c);
    assert(out@ =~= old(out)@ + hex(n as nat));
}

fn push_encoded(out: &mut String, c: char)
    ensures
        final(out)@ == old(out)@ + encoded_char(c),
{
    if (c >= 'A' && c <= 'Z') || (c >= 'a' && c <= 'z') || (c >= '0' && c <= '9') || c == '-' || c
        == '_' || c == '.' || c == '~' {
        out.push(c);
    } else {
        let n: u32 = c as u32;
        out.push('%');
        if n < 16 {
            out.push('0');
        }
        push_hex(out, n);
    }
    assert(out@ =~= old(out)@ + encoded_char(c));
}

/// Writes every character but the unreserved ones as a percent sign and its
/// number in hexadecimal.
pub fn url_encode(s: &str) -> (encoded: String)
    ensures
        encoded@ == url_encoded(s@),
{
    let chars = chars_of(s);
    let mut out = String::new();
    let mut i: usize = 0;
    assert(s@.take(0) =~= Seq::empty());
    while i < chars.len()
        invariant
            chars@ == s@,
            i <= chars@.len(),
            out@ == url_encoded(s@.take(i as int)),
        decreases chars@.len() - i,
    {
        let c: char = chars[i];
        proof {
            let longer = s@.take(i + 1);
            assert(longer.drop_last() =~= s@.take(i as int));
            assert(longer.last() == c);
        }
        push_encoded(&mut out, c);
        i = i + 1;
    }
    assert(s@.take(i as int) =~= s@);
    out
}

/// The value of a hexadecimal digit.
pub open spec fn hex_value(c: char) -> int {
    if c <= '9' {
        c as int - 48
    } else {
        c as int - 55
    }
}

/// A text with each percent sign and the two digits behind it turned back into
/// the character that they stand for.
pub open spec fn url_decoded(s: Seq<char>) -> Seq<char>
    decreases s.len(),
{
    if s.len() == 0 {
        Seq::empty()
    } else if s[0] == '%' && s.len() >= 3 {
        seq![(hex_value(s[1]) * 16 + hex_value(s[2])) as char] + url_decoded(s.skip(3))
    } else {
        seq![s[0]] + url_decoded(s.skip(1))
    }
}

proof fn lemma_url_encoded_cons(s: Seq<char>)
    requires
        s.len() > 0,
    ensures
        url_encoded(s) == encoded_char(s[0]) + url_encoded(s.skip(1)),
    decreases s.len(),
{
    reveal_with_fuel(url_encoded, 2);
    if s.len() == 1 {
        assert(s.drop_last() =~= Seq::empty());
        assert(s.skip(1) =~= Seq::empty());
        assert(url_encoded(s) =~= encoded_char(s[0]));
        assert(encoded_char(s[0]) + url_encoded(s.skip(1)) =~= encoded_char(s[0]));
    } else {
        lemma_url_encoded_cons(s.drop_last());
        assert(s.drop_last().skip(1) =~= s.skip(1).drop_last());
        assert(url_encoded(s) =~= encoded_char(s[0]) + (url_encoded(s.skip(1).drop_last())
            + encoded_char(s.last())));
        assert(s.skip(1).last() == s.last());
    }
}

proof fn lemma_char_of_its_number(c: char)
    ensures
        (c as nat) as int as char == c,
{
}

proof fn lemma_hex_pair_reads_back(n: nat)
    requires
        n < 256,
    ensures
        hex_pair(n).len() == 2,
        hex_value(hex_pair(n)[0]) * 16 + hex_value(hex_pair(n)[1]) == n,
{
    reveal_with_fuel(hex, 2);
    let high = (n / 16) as int;
    let low = (n % 16) as int;
    assert(hex_pair(n) =~= seq![hex_digit(high), hex_digit(low)]);
    assert(hex_value(hex_digit(high)) == high);
    assert(hex_value(hex_digit(low)) == low);
}

/// A text whose characters have at most two hexadecimal digits comes back from
/// its encoding.
pub proof fn law_decoding_undoes_encoding(s: Seq<char>)
    requires
        forall|i: int| 0 <= i < s.len() ==> (#[trigger] s[i] as nat) < 256,
    ensures
        url_decoded(url_encoded(s)) == s,
    decreases s.len(),
{
    if s.len() > 0 {
        let c = s[0];
        let n = c as nat;
        let rest = s.skip(1);
        assert forall|i: int| 0 <= i < rest.len() implies (#[trigger] rest[i] as nat) < 256 by {
            assert(rest[i] == s[i + 1]);
        }
        law_decoding_undoes_encoding(rest);
        lemma_url_encoded_cons(s);
        let whole = url_encoded(s);
        if is_unreserved(c) {
            assert(whole.skip(1) =~= url_encoded(rest));
        } else {
            lemma_hex_pair_reads_back(n);
            lemma_char_of_its_number(c);
            let code = encoded_char(c);
            assert(code.len() == 3);
            assert(whole.skip(3) =~= url_encoded(rest));
            assert(whole[1] == hex_pair(n)[0]);
            assert(whole[2] == hex_pair(n)[1]);
        }
        assert(url_decoded(whole) =~= seq![c] + rest);
        assert(seq![c] + rest =~= s);
    } else {
        assert(url_decoded(url_encoded(s)) =~= s);
    }
}

pub open spec fn is_query_char(c: char) -> bool {
    is_unreserved(c) || c == '%'
}

proof fn lemma_hex_is_unreserved(n: nat)
    ensures
        forall|i: int| 0 <= i < hex(n).len() ==> is_unreserved(#[trigger] hex(n)[i]),
    decreases n,
{
    if n >= 16 {
        lemma_hex_is_unreserved(n / 16);
        assert forall|i: int| 0 <= i < hex(n).len() implies is_unreserved(#[trigger] hex(n)[i]) by {
            if i < hex(n / 16).len() {
                assert(hex(n)[i] == hex(n / 16)[i]);
            }
        }
    }
}

/// An encoded text holds no character that has a meaning of its own in a query
/// string, but for the percent sign.
pub proof fn law_encoded_is_query_safe(s: Seq<char>)
    ensures
        forall|i: int| 0 <= i < url_encoded(s).len() ==> is_query_char(#[trigger] url_encoded(s)[i]),
    decreases s.len(),
{
    if s.len() > 0 {
        law_encoded_is_query_safe(s.drop_last());
        lemma_hex_is_unreserved(s.last() as nat);
        let front = url_encoded(s.drop_last());
        let back = encoded_char(s.last());
        assert forall|i: int| 0 <= i < back.len() implies is_query_char(#[trigger] back[i]) by {
            if !is_unreserved(s.last()) && i > 0 {
                let n = s.last() as nat;
                if n < 16 {
                    if i > 1 {
                        assert(back[i] == hex(n)[i - 2]);
                    }
                } else {
                    assert(back[i] == hex(n)[i - 1]);
                }
            }
        }
        assert forall|i: int| 0 <= i < url_encoded(s).len() implies is_query_char(
            #[trigger] url_encoded(s)[i],
        ) by {
            if i < front.len() {
                assert(url_encoded(s)[i] == front[i]);
            } else {
                assert(url_encoded(s)[i] == back[i - front.len()]);
            }
        }
    }
}

/// Texts are encoded character by character.
pub proof fn law_texts_are_encoded_character_by_character(a: Seq<char>, b: Seq<char>)
    ensures
        url_encoded(Seq::empty()) == Seq::<char>::empty(),
        url_encoded(a + b) == url_encoded(a) + url_encoded(b),
    decreases b.len(),
{
    if b.len() == 0 {
        assert(a + b =~= a);
        assert(url_encoded(a) + url_encoded(b) =~= url_encoded(a));
    } else {
        assert((a + b).drop_last() =~= a + b.drop_last());
        law_texts_are_encoded_character_by_character(a, b.drop_last());
        assert(url_encoded(a + b) =~= url_encoded(a) + url_encoded(b));
    }
}

/// Letters, digits and four marks stand for themselves; every other character becomes a
/// percent sign and its number in hexadecimal, with two digits at least.
pub proof fn law_characters_are_encoded(c: char)
    ensures
        ('A' <= c <= 'Z' || 'a' <= c <= 'z' || '0' <= c <= '9' || c == '-' || c == '_' || c == '.'
            || c == '~') ==> url_encoded(seq![c]) == seq![c],
        !('A' <= c <= 'Z' || 'a' <= c <= 'z' || '0' <= c <= '9' || c == '-' || c == '_' || c == '.'
            || c == '~') ==> url_encoded(seq![c]) == seq!['%'] + (if (c as nat) < 16 {
            seq!['0'] + hex(c as nat)
        } else {
            hex(c as nat)
        }),
{
    reveal_with_fuel(url_encoded, 2);
    assert(seq![c].drop_last() =~= Seq::empty());
    assert(url_encoded(seq![c]) =~= encoded_char(c));
}

/// A number below sixteen is written with one hexadecimal digit, in upper case; a larger
/// one with the text of its sixteens and the digit of its ones.
pub proof fn law_hex_is_base_sixteen(sixteens: nat, ones: nat)
    requires
        ones < 16,
    ensures
        hex(ones).len() == 1,
        ones < 10 ==> hex(ones)[0] as int == '0' as int + ones,
        ones >= 10 ==> hex(ones)[0] as int == 'A' as int + (ones - 10),
        sixteens > 0 ==> hex(16 * sixteens + ones) == hex(sixteens) + hex(ones),
{
    let n: nat = 16 * sixteens + ones;
    if sixteens > 0 {
        assert(n / 16 == sixteens && n % 16 == ones);
        assert(hex(n) =~= hex(sixteens) + hex(ones));
    }
}

/// `url_encode` encodes the text that it is given.
pub proof fn law_encoding_is_of_the_text(s: &str, encoded: String)
    requires
        call_ensures(url_encode, (s,), encoded),
    ensures
        encoded@ == url_encoded(s@),
        (forall|i: int| 0 <= i < s@.len() ==> (#[trigger] s@[i] as nat) < 256) ==> url_decoded(
            encoded@,
        ) == s@,
        forall|i: int|
            0 <= i < encoded@.len() ==> {
                let c = #[trigger] encoded@[i];
                'A' <= c <= 'Z' || 'a' <= c <= 'z' || '0' <= c <= '9' || c == '-' || c == '_' || c
                    == '.' || c == '~' || c == '%'
            },
{
    law_encoded_is_query_safe(s@);
    if forall|i: int| 0 <= i < s@.len() ==> (#[trigger] s@[i] as nat) < 256 {
        law_decoding_undoes_encoding(s@);
    }
    assert forall|i: int| 0 <= i < encoded@.len() implies {
        let c = #[trigger] encoded@[i];
        'A' <= c <= 'Z' || 'a' <= c <= 'z' || '0' <= c <= '9' || c == '-' || c == '_' || c == '.'
            || c == '~' || c == '%'
    } by {
        assert(is_query_char(url_encoded(s@)[i]));
    }
}

} // verus!
