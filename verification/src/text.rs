//! Text as sequences of characters: searching, replacing, and writing
//! numbers in decimal.

use vstd::prelude::*;

verus! {

/// Whether `pattern` stands in `text` at position `at`.
pub open spec fn occurs_at(text: Seq<char>, pattern: Seq<char>, at: int) -> bool {
    0 <= at && at + pattern.len() <= text.len() && text.subrange(at, at + pattern.len())
        == pattern
}

/// Whether `pattern` stands somewhere in `text`.
pub open spec fn has_part(text: Seq<char>, pattern: Seq<char>) -> bool {
    exists|at: int| occurs_at(text, pattern, at)
}

/// Whether `text` ends with `pattern`.
pub open spec fn has_ending(text: Seq<char>, pattern: Seq<char>) -> bool {
    occurs_at(text, pattern, text.len() - pattern.len())
}

/// `text` with every occurrence of `pattern` replaced by `with`: the
/// occurrences are found from the left and do not overlap. A text is left as
/// it is by an empty pattern.
pub open spec fn replaced(text: Seq<char>, pattern: Seq<char>, with: Seq<char>) -> Seq<char>
    decreases text.len(),
{
    if pattern.len() == 0 || text.len() < pattern.len() {
        text
    } else if text.subrange(0, pattern.len() as int) == pattern {
        with + replaced(text.subrange(pattern.len() as int, text.len() as int), pattern, with)
    } else {
        seq![text[0]] + replaced(text.subrange(1, text.len() as int), pattern, with)
    }
}

/// The characters of a text, one by one.
pub fn chars_of(text: &str) -> (chars: Vec<char>)
    ensures
        chars@ == text@,
{
    let n = text.unicode_len();
    let mut chars: Vec<char> = Vec::new();
    let mut k: usize = 0;
    while k < n
        invariant
            n == text@.len(),
            k <= n,
            chars@ == text@.subrange(0, k as int),
        decreases n - k,
    {
        chars.push(text.get_char(k));
        k += 1;
        assert(chars@ =~= text@.subrange(0, k as int));
    }
    assert(text@.subrange(0, n as int) =~= text@);
    chars
}

/// Whether `pattern` stands in `text` at position `at`.
pub fn matches_at(text: &Vec<char>, pattern: &Vec<char>, at: usize) -> (found: bool)
    ensures
        found == occurs_at(text@, pattern@, at as int),
{
    let n = text.len();
    let m = pattern.len();
    if m > n || at > n - m {
        return false;
    }
    let mut k: usize = 0;
    while k < m
        invariant
            n == text@.len(),
            m == pattern@.len(),
            at + m <= n,
            k <= m,
            forall|j: int| 0 <= j < k ==> text@[at + j] == pattern@[j],
        decreases m - k,
    {
        if text[at + k] != pattern[k] {
            assert(text@.subrange(at as int, at + m)[k as int] == text@[at + k]);
            return false;
        }
        k += 1;
    }
    assert(text@.subrange(at as int, at + m) =~= pattern@);
    true
}

/// Whether `pattern` stands somewhere in `text`.
pub fn contains_text(text: &str, pattern: &str) -> (found: bool)
    ensures
        found == has_part(text@, pattern@),
{
    let chars = chars_of(text);
    let wanted = chars_of(pattern);
    let n = chars.len();
    let m = wanted.len();
    if m > n {
        return false;
    }
    let last = n - m;
    let mut at: usize = 0;
    while at < last
        invariant
            n == chars@.len(),
            m == wanted@.len(),
            last == n - m,
            chars@ == text@,
            wanted@ == pattern@,
            at <= last,
            forall|j: int| 0 <= j < at ==> !occurs_at(text@, pattern@, j),
        decreases last - at,
    {
        if matches_at(&chars, &wanted, at) {
            return true;
        }
        at += 1;
    }
    matches_at(&chars, &wanted, last)
}

/// Whether `text` ends with `pattern`.
pub fn ends_with_text(text: &str, pattern: &str) -> (found: bool)
    ensures
        found == has_ending(text@, pattern@),
{
    let chars = chars_of(text);
    let wanted = chars_of(pattern);
    if wanted.len() > chars.len() {
        return false;
    }
    matches_at(&chars, &wanted, chars.len() - wanted.len())
}

/// `text` with every occurrence of `pattern` replaced by `with`, found from
/// the left and without overlap.
pub fn replace_text(text: &str, pattern: &str, with: &str) -> (result: String)
    ensures
        result@ == replaced(text@, pattern@, with@),
{
    let chars = chars_of(text);
    let wanted = chars_of(pattern);
    let n = chars.len();
    let m = wanted.len();
    if m == 0 || n < m {
        return String::from_str(text);
    }
    let mut result = String::new();
    let mut at: usize = 0;
    proof {
        assert(text@.subrange(0, n as int) =~= text@);
        assert(result@ + replaced(text@, pattern@, with@) =~= replaced(text@, pattern@, with@));
    }
    while at <= n - m
        invariant
            n == chars@.len(),
            m == wanted@.len(),
            0 < m <= n,
            chars@ == text@,
            wanted@ == pattern@,
            at <= n,
            result@ + replaced(text@.subrange(at as int, n as int), pattern@, with@) == replaced(
                text@,
                pattern@,
                with@,
            ),
        decreases n - at,
    {
        let ghost rest = text@.subrange(at as int, n as int);
        let ghost before = result@;
        if matches_at(&chars, &wanted, at) {
            result.append(with);
            proof {
                assert(rest.subrange(0, m as int) =~= text@.subrange(at as int, at + m));
                assert(rest.subrange(m as int, rest.len() as int) =~= text@.subrange(
                    at + m,
                    n as int,
                ));
                assert(before + (with@ + replaced(
                    text@.subrange(at + m, n as int),
                    pattern@,
                    with@,
                )) =~= (before + with@) + replaced(
                    text@.subrange(at + m, n as int),
                    pattern@,
                    with@,
                ));
            }
            at += m;
        } else {
            result.append(text.substring_char(at, at + 1));
            proof {
                assert(rest.subrange(0, m as int) =~= text@.subrange(at as int, at + m));
                assert(rest.subrange(1, rest.len() as int) =~= text@.subrange(at + 1, n as int));
                assert(text@.subrange(at as int, at + 1) =~= seq![rest[0]]);
                assert(before + (seq![rest[0]] + replaced(
                    text@.subrange(at + 1, n as int),
                    pattern@,
                    with@,
                )) =~= (before + seq![rest[0]]) + replaced(
                    text@.subrange(at + 1, n as int),
                    pattern@,
                    with@,
                ));
            }
            at += 1;
        }
    }
    result.append(text.substring_char(at, n));
    result
}

/// The character of a decimal digit.
pub open spec fn digit_char(d: int) -> char {
    if d == 0 {
        '0'
    } else if d == 1 {
        '1'
    } else if d == 2 {
        '2'
    } else if d == 3 {
        '3'
    } else if d == 4 {
        '4'
    } else if d == 5 {
        '5'
    } else if d == 6 {
        '6'
    } else if d == 7 {
        '7'
    } else if d == 8 {
        '8'
    } else {
        '9'
    }
}

/// A number in decimal, without leading zeros; zero is `0`.
pub open spec fn digits(n: nat) -> Seq<char>
    decreases n,
{
    if n < 10 {
        seq![digit_char(n as int)]
    } else {
        digits(n / 10).push(digit_char((n % 10) as int))
    }
}

/// An integer in decimal, with a minus sign where it is negative.
pub open spec fn int_text(n: int) -> Seq<char> {
    if n < 0 {
        seq!['-'] + digits((-n) as nat)
    } else {
        digits(n as nat)
    }
}

/// The one-character text of a decimal digit.
pub(crate) fn digit_text(d: u8) -> (text: &'static str)
    requires
        d < 10,
    ensures
        text@ == seq![digit_char(d as int)],
{
    proof {
        reveal_strlit("0");
        reveal_strlit("1");
        reveal_strlit("2");
        reveal_strlit("3");
        reveal_strlit("4");
        reveal_strlit("5");
        reveal_strlit("6");
        reveal_strlit("7");
        reveal_strlit("8");
        reveal_strlit("9");
    }
    let text = if d == 0 {
        "0"
    } else if d == 1 {
        "1"
    } else if d == 2 {
        "2"
    } else if d == 3 {
        "3"
    } else if d == 4 {
        "4"
    } else if d == 5 {
        "5"
    } else if d == 6 {
        "6"
    } else if d == 7 {
        "7"
    } else if d == 8 {
        "8"
    } else {
        "9"
    };
    assert(text@ =~= seq![digit_char(d as int)]);
    text
}

/// Writes a number in decimal at the end of `out`.
pub fn append_digits(out: &mut String, n: u128)
    ensures
        final(out)@ == old(out)@ + digits(n as nat),
    decreases n,
{
    if n >= 10 {
        append_digits(out, n / 10);
    }
    let last: u8 = (n % 10) as u8;
    out.append(digit_text(last));
    proof {
        if n >= 10 {
            assert(old(out)@ + digits((n / 10) as nat) + seq![digit_char(last as int)] =~= old(
                out,
            )@ + digits((n / 10) as nat).push(digit_char(last as int)));
        }
    }
}

/// Writes an integer in decimal at the end of `out`.
pub fn append_int(out: &mut String, n: i64)
    ensures
        final(out)@ == old(out)@ + int_text(n as int),
{
    if n < 0 {
        out.append("-");
        let wide: i128 = n as i128;
        let flipped: i128 = -wide;
        append_digits(out, flipped as u128);
        proof {
            reveal_strlit("-");
            assert("-"@ =~= seq!['-']);
            assert(old(out)@ + seq!['-'] + digits((-n) as nat) =~= old(out)@ + (seq!['-'] + digits(
                (-n) as nat,
            )));
        }
    } else {
        append_digits(out, n as u128);
    }
}

/// A text in small letters: every cased letter of any alphabet by its small
/// form. A letter whose small form takes more than one character is written
/// out, so the result may be longer than the text.
pub uninterp spec fn lowered(text: Seq<char>) -> Seq<char>;

/// The code of a character with the letters `A` to `Z` taken as `a` to `z`.
pub open spec fn fold(c: char) -> int {
    if 65 <= c as int <= 90 {
        c as int + 32
    } else {
        c as int
    }
}

/// Whether every character of a text lies below U+0080.
pub open spec fn is_plain(text: Seq<char>) -> bool {
    forall|i: int| 0 <= i < text.len() ==> (#[trigger] text[i] as int) < 128
}

/// Whether `lower` is `text` with the letters `A` to `Z` taken as `a` to
/// `z` and every other character left as it is.
pub open spec fn folds_to(text: Seq<char>, lower: Seq<char>) -> bool {
    lower.len() == text.len() && forall|i: int|
        0 <= i < text.len() ==> (#[trigger] lower[i] as int) == fold(text[i])
}

/// `str::to_lowercase`: the text in small letters, by the Unicode property
/// Lowercase. The result depends on the text alone. Of a text whose
/// characters all lie below U+0080 the letters `A` to `Z` become `a` to
/// `z` and nothing else changes; of any other text nothing is claimed but
/// that the result is that function of it.
#[verifier::external_body]
pub(crate) fn lower_text(text: &str) -> (lower: String)
    ensures
        lower@ == lowered(text@),
        is_plain(text@) ==> folds_to(text@, lower@),
{
    text.to_lowercase()
}

} // verus!
