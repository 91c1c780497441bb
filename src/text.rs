//! Text handling for chat commands: splitting on whitespace, reading and
//! writing decimal numbers, joining words.

use vstd::prelude::*;

verus! {

/// The characters that `char::is_whitespace` accepts: the Unicode
/// `White_Space` property.
pub open spec fn is_space(c: char) -> bool {
    ('\u{9}' <= c && c <= '\u{d}') || c == ' ' || c == '\u{85}' || c == '\u{a0}'
        || c == '\u{1680}' || ('\u{2000}' <= c && c <= '\u{200a}') || c == '\u{2028}'
        || c == '\u{2029}' || c == '\u{202f}' || c == '\u{205f}' || c == '\u{3000}'
}

/// The whitespace-separated words of `s`, in order: each maximal run of
/// non-whitespace characters is one word.
pub open spec fn words(s: Seq<char>) -> Seq<Seq<char>>
    decreases s.len(),
{
    if s.len() == 0 {
        seq![]
    } else {
        let w = words(s.drop_last());
        let c = s.last();
        if is_space(c) {
            w
        } else if s.len() >= 2 && !is_space(s[s.len() - 2]) {
            w.update(w.len() - 1, w.last().push(c))
        } else {
            w.push(seq![c])
        }
    }
}

pub fn is_space_char(c: char) -> (r: bool)
    ensures
        r == is_space(c),
{
    ('\u{9}' <= c && c <= '\u{d}') || c == ' ' || c == '\u{85}' || c == '\u{a0}'
        || c == '\u{1680}' || ('\u{2000}' <= c && c <= '\u{200a}') || c == '\u{2028}'
        || c == '\u{2029}' || c == '\u{202f}' || c == '\u{205f}' || c == '\u{3000}'
}

/// The views of a sequence of strings.
pub open spec fn views(v: Seq<String>) -> Seq<Seq<char>> {
    v.map_values(|s: String| s@)
}

/// The digit character for a value below ten.
pub open spec fn digit_char(d: nat) -> char {
    if d == 0 { '0' } else if d == 1 { '1' } else if d == 2 { '2' } else if d == 3 { '3' }
    else if d == 4 { '4' } else if d == 5 { '5' } else if d == 6 { '6' } else if d == 7 { '7' }
    else if d == 8 { '8' } else { '9' }
}

/// The decimal digits of `n`, most significant first, without leading zeros.
pub open spec fn digits_of(n: nat) -> Seq<char>
    decreases n,
{
    if n < 10 {
        seq![digit_char(n)]
    } else {
        digits_of(n / 10).push(digit_char(n % 10))
    }
}

pub open spec fn is_digit(c: char) -> bool {
    '0' <= c && c <= '9'
}

/// A non-empty run of ASCII digits.
pub open spec fn is_number(s: Seq<char>) -> bool {
    s.len() > 0 && forall|k: int| 0 <= k < s.len() ==> is_digit(#[trigger] s[k])
}

/// The value of a run of decimal digits.
pub open spec fn value_of(s: Seq<char>) -> nat
    decreases s.len(),
{
    if s.len() == 0 {
        0
    } else {
        value_of(s.drop_last()) * 10 + ((s.last() as nat) - ('0' as nat)) as nat
    }
}

/// What reading `s` as an unsigned 64-bit decimal number gives: `None` when
/// it is not a run of digits or its value does not fit.
pub open spec fn number_of(s: Seq<char>) -> Option<u64> {
    if is_number(s) && value_of(s) <= u64::MAX {
        Some(value_of(s) as u64)
    } else {
        None
    }
}

/// The words of `items`, each after one space, following `label`.
pub open spec fn labelled(label: Seq<char>, items: Seq<Seq<char>>) -> Seq<char>
    decreases items.len(),
{
    if items.len() == 0 {
        label
    } else {
        labelled(label, items.drop_last()) + seq![' '] + items.last()
    }
}

/// Splits `s` at whitespace, as `str::split_whitespace` does.
pub fn split_words(s: &str) -> (r: Vec<String>)
    ensures
        views(r@) == words(s@),
{
    let n = s.unicode_len();
    let mut out: Vec<String> = Vec::new();
    let mut start: usize = 0;
    let mut i: usize = 0;
    while i < n
        invariant
            n == s@.len(),
            start <= i <= n,
            start == i ==> views(out@) == words(s@.take(i as int)),
            start < i ==> {
                &&& views(out@).push(s@.subrange(start as int, i as int)) == words(
                    s@.take(i as int),
                )
                &&& forall|k: int| start <= k < i ==> !is_space(#[trigger] s@[k])
                &&& (start == 0 || is_space(s@[start - 1]))
            },
            start == i && i > 0 ==> is_space(s@[i - 1]),
        decreases n - i,
    {
        let c = s.get_char(i);
        proof {
            assert(s@.take(i + 1).drop_last() == s@.take(i as int));
            assert(s@.take(i + 1).last() == c);
        }
        if is_space_char(c) {
            if start < i {
                let w = String::from_str(s.substring_char(start, i));
                let ghost before = out@;
                out.push(w);
                proof {
                    assert(views(out@) == views(before).push(w@));
                }
            }
            i = i + 1;
            start = i;
        } else {
            proof {
                let t = s@.take(i + 1);
                if start < i {
                    assert(s@.subrange(start as int, i + 1) == s@.subrange(
                        start as int,
                        i as int,
                    ).push(c));
                    assert(t[t.len() - 2] == s@[i - 1]);
                    let w = words(t.drop_last());
                    assert(w.last() == s@.subrange(start as int, i as int));
                    assert(views(out@).push(s@.subrange(start as int, i + 1)) == w.update(
                        w.len() - 1,
                        w.last().push(c),
                    ));
                } else {
                    assert(s@.subrange(start as int, i + 1) == seq![c]);
                    if i > 0 {
                        assert(t[t.len() - 2] == s@[i - 1]);
                    }
                }
            }
            i = i + 1;
        }
    }
    if start < n {
        let w = String::from_str(s.substring_char(start, n));
        let ghost before = out@;
        out.push(w);
        proof {
            assert(views(out@) == views(before).push(w@));
        }
    }
    proof {
        assert(s@.take(n as int) == s@);
    }
    out
}

fn digit_str(d: u64) -> (r: &'static str)
    requires
        d < 10,
    ensures
        r@ == seq![digit_char(d as nat)],
{
    proof {
        reveal_strlit("0");
        reveal_strlit("1");
        reveal_strlit("2");
        reveal_strlit("3");
        reveal_strlit("4");
        reveal_strlit("5");
        reveal_strlit("6");
        reveal_strlit("7");
        reveal_strlit("8");
        reveal_strlit("9");
    }
    if d == 0 { "0" } else if d == 1 { "1" } else if d == 2 { "2" } else if d == 3 { "3" }
    else if d == 4 { "4" } else if d == 5 { "5" } else if d == 6 { "6" } else if d == 7 { "7" }
    else if d == 8 { "8" } else { "9" }
}

/// Writes `n` in decimal.
pub fn decimal(n: u64) -> (r: String)
    ensures
        r@ == digits_of(n as nat),
    decreases n,
{
    if n < 10 {
        String::from_str(digit_str(n))
    } else {
        let mut r = decimal(n / 10);
        r.append(digit_str(n % 10));
        r
    }
}

/// Reads `s` as an unsigned decimal number, as `str::parse::<u64>` does for
/// a plain run of digits; anything else, or a value that does not fit, gives
/// `None`.
pub fn parse_number(s: &str) -> (r: Option<u64>)
    ensures
        r == number_of(s@),
{
    let n = s.unicode_len();
    if n == 0 {
        return None;
    }
    let mut v: u64 = 0;
    let mut i: usize = 0;
    while i < n
        invariant
            n == s@.len(),
            i <= n,
            forall|k: int| 0 <= k < i ==> is_digit(#[trigger] s@[k]),
            v == value_of(s@.take(i as int)),
        decreases n - i,
    {
        let c = s.get_char(i);
        proof {
            assert(s@.take(i + 1).drop_last() == s@.take(i as int));
        }
        if !('0' <= c && c <= '9') {
            return None;
        }
        let d = (c as u32 - '0' as u32) as u64;
        if v > (u64::MAX - d) / 10 {
            proof {
                assert(value_of(s@.take(i + 1)) == v * 10 + d);
                if is_number(s@) {
                    lemma_value_grows(s@, i as int + 1);
                    assert(s@.take(n as int) == s@);
                }
            }
            return None;
        }
        v = v * 10 + d;
        i = i + 1;
    }
    proof {
        assert(s@.take(n as int) == s@);
    }
    Some(v)
}

/// A prefix of a run of digits is worth no more than the whole.
proof fn lemma_value_grows(s: Seq<char>, i: int)
    requires
        0 <= i <= s.len(),
        forall|k: int| 0 <= k < s.len() ==> is_digit(#[trigger] s[k]),
    ensures
        value_of(s.take(i)) <= value_of(s),
    decreases s.len() - i,
{
    if i < s.len() {
        lemma_value_grows(s, i + 1);
        let t = s.take(i + 1);
        assert(t.drop_last() == s.take(i));
        assert(value_of(t) == value_of(s.take(i)) * 10 + ((t.last() as nat) - ('0' as nat)) as nat);
        assert(value_of(s.take(i)) * 10 >= value_of(s.take(i))) by (nonlinear_arith);
    } else {
        assert(s.take(i) == s);
    }
}

/// `label`, then each of `items` after one space.
pub fn join_labelled(label: &str, items: &Vec<String>) -> (r: String)
    ensures
        r@ == labelled(label@, views(items@)),
{
    let mut r = String::from_str(label);
    let mut i: usize = 0;
    while i < items.len()
        invariant
            i <= items@.len(),
            r@ == labelled(label@, views(items@).take(i as int)),
        decreases items@.len() - i,
    {
        proof {
            assert(views(items@).take(i + 1).drop_last() == views(items@).take(i as int));
        }
        let ghost before = r@;
        r.append(" ");
        r.append(items[i].as_str());
        proof {
            reveal_strlit(" ");
            assert(" "@ == seq![' ']);
            assert(views(items@).take(i + 1).last() == items@[i as int]@);
            assert(r@ == before + seq![' '] + items@[i as int]@);
        }
        i = i + 1;
    }
    proof {
        assert(views(items@).take(items@.len() as int) == views(items@));
    }
    r
}

} // verus!
