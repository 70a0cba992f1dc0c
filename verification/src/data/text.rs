//! Text helpers shared by the request builders and the loaders.

use vstd::prelude::*;
use vstd::std_specs::iter::IteratorSpec;
use vstd::string::StrSliceExecFns;
use vstd::string::StringExecFns;

verus! {

/// The decimal digit that stands for `d`.
pub open spec fn digit_char(d: int) -> char
    recommends
        0 <= d < 10,
{
    if d == 0 {
        '0'
    } else if d == 1 {
        '1'
    } else if d == 2 {
        '2'
    } else if d == 3 {
        '3'
    } else if d == 4 {
        '4'
    } else if d == 5 {
        '5'
    } else if d == 6 {
        '6'
    } else if d == 7 {
        '7'
    } else if d == 8 {
        '8'
    } else {
        '9'
    }
}

/// The decimal digits of a natural number, most significant first; `0` is
/// written as the single digit `0`.
pub open spec fn decimal_digits(n: nat) -> Seq<char>
    decreases n,
{
    if n < 10 {
        seq![digit_char(n as int)]
    } else {
        decimal_digits(n / 10).push(digit_char((n % 10) as int))
    }
}

/// The decimal text of an integer: a minus sign for a negative number, then
/// the digits of its magnitude.
pub open spec fn decimal_text(n: int) -> Seq<char> {
    if n < 0 {
        seq!['-'] + decimal_digits((-n) as nat)
    } else {
        decimal_digits(n as nat)
    }
}

fn digit_str(d: u64) -> (s: &'static str)
    requires
        d < 10,
    ensures
        s@ == seq![digit_char(d as int)],
{
    proof {
        reveal_strlit("0");
        reveal_strlit("1");
        reveal_strlit("2");
        reveal_strlit("3");
        reveal_strlit("4");
        reveal_strlit("5");
        reveal_strlit("6");
        reveal_strlit("7");
        reveal_strlit("8");
        reveal_strlit("9");
    }
    let s = if d == 0 {
        "0"
    } else if d == 1 {
        "1"
    } else if d == 2 {
        "2"
    } else if d == 3 {
        "3"
    } else if d == 4 {
        "4"
    } else if d == 5 {
        "5"
    } else if d == 6 {
        "6"
    } else if d == 7 {
        "7"
    } else if d == 8 {
        "8"
    } else {
        "9"
    };
    s
}

/// Appends the decimal digits of `n` to `out`.
fn push_digits(out: &mut String, n: u64)
    ensures
        final(out)@ == old(out)@ + decimal_digits(n as nat),
    decreases n,
{
    if n >= 10 {
        push_digits(out, n / 10);
    }
    out.append(digit_str(n % 10));
}

/// Writes an integer in decimal, as `{}` formats it.
pub fn decimal_string(n: i32) -> (s: String)
    ensures
        s@ == decimal_text(n as int),
{
    let mut out = String::new();
    if n < 0 {
        proof {
            reveal_strlit("-");
        }
        out.append("-");
        let magnitude: u64 = (-(n as i64)) as u64;
        push_digits(&mut out, magnitude);
    } else {
        push_digits(&mut out, n as u64);
    }
    out
}

/// The order of texts: character by character, by code point; a text comes
/// before every text that it begins. This is the order of `str`.
pub open spec fn text_le(a: Seq<char>, b: Seq<char>) -> bool
    decreases a.len(),
{
    if a.len() == 0 {
        true
    } else if b.len() == 0 {
        false
    } else if a[0] != b[0] {
        a[0] < b[0]
    } else {
        text_le(a.drop_first(), b.drop_first())
    }
}

/// Of two texts one comes first.
pub proof fn lemma_text_le_total(a: Seq<char>, b: Seq<char>)
    ensures
        text_le(a, b) || text_le(b, a),
    decreases a.len(),
{
    if a.len() > 0 && b.len() > 0 && a[0] == b[0] {
        lemma_text_le_total(a.drop_first(), b.drop_first());
    }
}

/// The order of texts is transitive.
pub proof fn lemma_text_le_transitive(a: Seq<char>, b: Seq<char>, c: Seq<char>)
    requires
        text_le(a, b),
        text_le(b, c),
    ensures
        text_le(a, c),
    decreases a.len(),
{
    if a.len() > 0 && a[0] == b[0] && b[0] == c[0] {
        lemma_text_le_transitive(a.drop_first(), b.drop_first(), c.drop_first());
    }
}

/// Whether `a` comes before `b` or is the same text.
pub fn text_precedes(a: &str, b: &str) -> (r: bool)
    ensures
        r == text_le(a@, b@),
{
    let mut rest_a = a.chars();
    let mut rest_b = b.chars();
    let ghost mut i: int = 0;
    loop
        invariant
            0 <= i <= a@.len(),
            i <= b@.len(),
            rest_a.remaining() == a@.skip(i),
            rest_b.remaining() == b@.skip(i),
            text_le(a@, b@) == text_le(a@.skip(i), b@.skip(i)),
        decreases a@.len() - i,
    {
        let next_a = rest_a.next();
        let next_b = rest_b.next();
        match (next_a, next_b) {
            (None, _) => {
                return true;
            },
            (Some(_), None) => {
                return false;
            },
            (Some(x), Some(y)) => {
                if x != y {
                    return x < y;
                }
                proof {
                    assert(a@.skip(i).drop_first() =~= a@.skip(i + 1));
                    assert(b@.skip(i).drop_first() =~= b@.skip(i + 1));
                    i = i + 1;
                }
            },
        }
    }
}

/// Whether two texts are the same.
pub fn text_equal(a: &str, b: &str) -> (r: bool)
    ensures
        r == (a@ == b@),
{
    let mut rest_a = a.chars();
    let mut rest_b = b.chars();
    let ghost mut i: int = 0;
    loop
        invariant
            0 <= i <= a@.len(),
            i <= b@.len(),
            rest_a.remaining() == a@.skip(i),
            rest_b.remaining() == b@.skip(i),
            a@.take(i) == b@.take(i),
        decreases a@.len() - i,
    {
        let next_a = rest_a.next();
        let next_b = rest_b.next();
        match (next_a, next_b) {
            (None, None) => {
                assert(a@.take(i) =~= a@ && b@.take(i) =~= b@);
                return true;
            },
            (None, Some(_)) => {
                return false;
            },
            (Some(_), None) => {
                return false;
            },
            (Some(x), Some(y)) => {
                if x != y {
                    return false;
                }
                proof {
                    i = i + 1;
                }
            },
        }
    }
}

/// The characters of a text.
pub fn characters(text: &str) -> (chars: Vec<char>)
    ensures
        chars@ == text@,
{
    let mut chars: Vec<char> = Vec::new();
    let mut rest = text.chars();
    loop
        invariant
            chars@.len() <= text@.len(),
            chars@ == text@.take(chars@.len() as int),
            rest.remaining() == text@.skip(chars@.len() as int),
        decreases text@.len() - chars@.len(),
    {
        match rest.next() {
            None => {
                return chars;
            },
            Some(c) => {
                chars.push(c);
            },
        }
    }
}

/// White space, as Unicode defines it: what separates the words of a text.
pub open spec fn is_whitespace(c: char) -> bool {
    ||| c == ' '
    ||| '\t' <= c <= '\r'
    ||| c == '\u{85}'
    ||| c == '\u{A0}'
    ||| c == '\u{1680}'
    ||| '\u{2000}' <= c <= '\u{200A}'
    ||| c == '\u{2028}'
    ||| c == '\u{2029}'
    ||| c == '\u{202F}'
    ||| c == '\u{205F}'
    ||| c == '\u{3000}'
}

/// Whether `c` is white space.
pub fn whitespace(c: char) -> (r: bool)
    ensures
        r == is_whitespace(c),
{
    c == ' ' || ('\t' <= c && c <= '\r') || c == '\u{85}' || c == '\u{A0}' || c == '\u{1680}' || (
    '\u{2000}' <= c && c <= '\u{200A}') || c == '\u{2028}' || c == '\u{2029}' || c == '\u{202F}'
        || c == '\u{205F}' || c == '\u{3000}'
}

/// How many characters at the start of `text` are white space (`blank`), or
/// are not (`!blank`).
pub open spec fn run_len(text: Seq<char>, blank: bool) -> nat
    decreases text.len(),
{
    if text.len() > 0 && is_whitespace(text[0]) == blank {
        1 + run_len(text.drop_first(), blank)
    } else {
        0
    }
}

/// The first word of a text: its first run of characters that are not white
/// space. It is empty where the text holds no word.
pub open spec fn first_word(text: Seq<char>) -> Seq<char> {
    let trimmed = text.skip(run_len(text, true) as int);
    trimmed.take(run_len(trimmed, false) as int)
}

/// What follows the first word of a text.
pub open spec fn after_first_word(text: Seq<char>) -> Seq<char> {
    let trimmed = text.skip(run_len(text, true) as int);
    trimmed.skip(run_len(trimmed, false) as int)
}

/// A run is no longer than the text.
pub proof fn lemma_run_len_bound(text: Seq<char>, blank: bool)
    ensures
        run_len(text, blank) <= text.len(),
    decreases text.len(),
{
    if text.len() > 0 && is_whitespace(text[0]) == blank {
        lemma_run_len_bound(text.drop_first(), blank);
    }
}

/// Where the run that starts at `from` ends.
pub fn run_end(chars: &Vec<char>, from: usize, blank: bool) -> (end: usize)
    requires
        from <= chars@.len(),
    ensures
        from <= end <= chars@.len(),
        end == from + run_len(chars@.skip(from as int), blank),
{
    let mut end = from;
    while end < chars.len() && whitespace(chars[end]) == blank
        invariant
            from <= end <= chars@.len(),
            from + run_len(chars@.skip(from as int), blank) == end + run_len(
                chars@.skip(end as int),
                blank,
            ),
        decreases chars@.len() - end,
    {
        assert(chars@.skip(end as int).drop_first() =~= chars@.skip(end + 1));
        end = end + 1;
    }
    end
}

/// The first two words of a text, each empty where the text has no such word.
pub fn first_two_words(text: &str) -> (words: (String, String))
    ensures
        words.0@ == first_word(text@),
        words.1@ == first_word(after_first_word(text@)),
{
    let chars = characters(text);
    let first_start = run_end(&chars, 0, true);
    let first_end = run_end(&chars, first_start, false);
    let second_start = run_end(&chars, first_end, true);
    let second_end = run_end(&chars, second_start, false);
    let first = text.substring_char(first_start, first_end);
    let second = text.substring_char(second_start, second_end);
    proof {
        let rest = after_first_word(text@);
        assert(text@.skip(0) =~= text@);
        assert(rest =~= text@.skip(first_end as int));
        assert(rest.skip(run_len(rest, true) as int) =~= text@.skip(second_start as int));
    }
    (String::from_str(first), String::from_str(second))
}

/// The words of a text: its runs of characters that are not white space,
/// in order.
pub open spec fn words(text: Seq<char>) -> Seq<Seq<char>>
    decreases text.len(),
{
    let trimmed = text.skip(run_len(text, true) as int);
    let length = run_len(trimmed, false);
    if length == 0 {
        Seq::empty()
    } else {
        proof {
            lemma_run_len_bound(text, true);
            lemma_run_len_bound(trimmed, false);
        }
        seq![trimmed.take(length as int)] + words(trimmed.skip(length as int))
    }
}

/// The views of a sequence of texts.
pub open spec fn text_views(texts: Seq<String>) -> Seq<Seq<char>> {
    texts.map_values(|t: String| t@)
}

/// Splits a text into its words.
pub fn split_words(text: &str) -> (parts: Vec<String>)
    ensures
        text_views(parts@) == words(text@),
{
    let chars = characters(text);
    let mut parts: Vec<String> = Vec::new();
    let mut at: usize = 0;
    proof {
        assert(text@.skip(0) =~= text@);
    }
    loop
        invariant
            chars@ == text@,
            at <= text@.len(),
            words(text@) == text_views(parts@) + words(text@.skip(at as int)),
        decreases text@.len() - at,
    {
        let ghost rest = text@.skip(at as int);
        let start = run_end(&chars, at, true);
        let end = run_end(&chars, start, false);
        proof {
            assert(rest.skip(run_len(rest, true) as int) =~= text@.skip(start as int));
        }
        if end == start {
            return parts;
        }
        let word = String::from_str(text.substring_char(start, end));
        proof {
            let trimmed = text@.skip(start as int);
            assert(word@ =~= trimmed.take(run_len(trimmed, false) as int));
            assert(trimmed.skip(run_len(trimmed, false) as int) =~= text@.skip(end as int));
        }
        parts.push(word);
        at = end;
    }
}

} // verus!
