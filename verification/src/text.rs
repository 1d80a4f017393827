//! Comparing, splitting and joining text.

use vstd::prelude::*;

verus! {

/// `str`'s `==` (`<str as PartialEq>::eq`): true exactly when the two hold
/// the same characters.
pub assume_specification[ <str as PartialEq>::eq ](a: &str, b: &str) -> (r: bool)
    ensures
        r == (a@ == b@),
;

/// Whether `a` and `b` hold the same characters.
pub fn same_text(a: &str, b: &str) -> (r: bool)
    ensures
        r == (a@ == b@),
{
    *a == *b
}

/// Whether `c` separates words: whether it has Unicode's property
/// White_Space. These are the controls from the tab to the carriage return
/// and the next-line control, the space and the no-break space, the Ogham
/// space mark, the spaces from the en quad to the hair space, the line and
/// paragraph separators, the narrow no-break space, the medium mathematical
/// space and the ideographic space.
pub open spec fn is_white_space(c: char) -> bool {
    let n = c as u32;
    ||| 0x0009 <= n <= 0x000D
    ||| n == 0x0020
    ||| n == 0x0085
    ||| n == 0x00A0
    ||| n == 0x1680
    ||| 0x2000 <= n <= 0x200A
    ||| n == 0x2028
    ||| n == 0x2029
    ||| n == 0x202F
    ||| n == 0x205F
    ||| n == 0x3000
}

/// `char::is_whitespace`: whether the character has Unicode's property
/// White_Space, which `is_white_space` spells out.
pub assume_specification[ char::is_whitespace ](c: char) -> (r: bool)
    ensures
        r == is_white_space(c),
;

/// `String::push`: appends the character to the end of the string.
pub assume_specification[ String::push ](s: &mut String, c: char)
    ensures
        final(s)@ == old(s)@.push(c),
;

/// The characters of each string of `v`.
pub open spec fn texts(v: Seq<String>) -> Seq<Seq<char>> {
    v.map_values(|s: String| s@)
}

/// The words that end within `s`, and the characters of a word that has
/// begun and not ended at the end of `s`.
pub open spec fn scan(s: Seq<char>) -> (Seq<Seq<char>>, Seq<char>)
    decreases s.len(),
{
    if s.len() == 0 {
        (Seq::empty(), Seq::empty())
    } else {
        let (done, word) = scan(s.drop_last());
        if !is_white_space(s.last()) {
            (done, word.push(s.last()))
        } else if word.len() > 0 {
            (done.push(word), Seq::empty())
        } else {
            (done, word)
        }
    }
}

/// The words of `s`: its longest runs of characters that are not white
/// space, in their order.
pub open spec fn words(s: Seq<char>) -> Seq<Seq<char>> {
    let (done, word) = scan(s);
    if word.len() > 0 {
        done.push(word)
    } else {
        done
    }
}

/// The words of `s`, which any amount of white space separates.
pub fn split_words(s: &str) -> (r: Vec<String>)
    ensures
        texts(r@) == words(s@),
{
    let mut done: Vec<String> = Vec::new();
    let mut word = String::new();
    for c in it: s.chars()
        invariant
            it.seq() == s@,
            scan(s@.take(it.index() as int)) == (texts(done@), word@),
    {
        proof {
            let next = s@.take(it.index() + 1);
            assert(next.drop_last() =~= s@.take(it.index() as int));
            assert(next.last() == c);
        }
        if !c.is_whitespace() {
            word.push(c);
        } else if !word.as_str().is_empty() {
            let ghost before = done@;
            done.push(word);
            word = String::new();
            assert(texts(done@) =~= texts(before).push(done[done.len() - 1]@));
        }
    }
    assert(s@.take(s@.len() as int) =~= s@);
    if !word.as_str().is_empty() {
        let ghost before = done@;
        done.push(word);
        assert(texts(done@) =~= texts(before).push(done[done.len() - 1]@));
    }
    done
}

/// The lines one after the other, with a line feed between each two.
pub open spec fn join_lines(lines: Seq<Seq<char>>) -> Seq<char>
    decreases lines.len(),
{
    if lines.len() == 0 {
        Seq::empty()
    } else if lines.len() == 1 {
        lines[0]
    } else {
        join_lines(lines.drop_last()) + seq!['\n'] + lines.last()
    }
}

/// The strings of `lines` as one text, with a line feed between each two.
pub fn join(lines: &Vec<String>) -> (r: String)
    ensures
        r@ == join_lines(texts(lines@)),
{
    let mut out = String::new();
    let mut i: usize = 0;
    while i < lines.len()
        invariant
            i <= lines.len(),
            out@ == join_lines(texts(lines@).take(i as int)),
        decreases lines.len() - i,
    {
        proof {
            let next = texts(lines@).take(i + 1);
            assert(next.drop_last() =~= texts(lines@).take(i as int));
            assert(next.last() == lines[i as int]@);
        }
        if i > 0 {
            out.push('\n');
        }
        out.append(lines[i].as_str());
        assert(out@ =~= join_lines(texts(lines@).take(i + 1)));
        i += 1;
    }
    assert(texts(lines@).take(lines.len() as int) =~= texts(lines@));
    out
}

/// The place of the first `c` in `s`; the length of `s` where it holds no
/// `c`.
pub open spec fn first_index(s: Seq<char>, c: char) -> int
    decreases s.len(),
{
    if s.len() == 0 || s[0] == c {
        0
    } else {
        1 + first_index(s.skip(1), c)
    }
}

/// `first_index` is the one `n` such that no character before `n` is `c`
/// and the character at `n`, if there is one, is `c`.
pub proof fn lemma_first_index(s: Seq<char>, c: char, n: int)
    requires
        0 <= n <= s.len(),
        forall|i: int| 0 <= i < n ==> s[i] != c,
        n < s.len() ==> s[n] == c,
    ensures
        first_index(s, c) == n,
    decreases n,
{
    if n > 0 {
        let rest = s.skip(1);
        assert(s[0] != c);
        assert forall|i: int| 0 <= i < n - 1 implies rest[i] != c by {
            assert(rest[i] == s[i + 1]);
        }
        lemma_first_index(rest, c, n - 1);
    }
}

/// What stands before the first `c` in `s`.
pub open spec fn before_first(s: Seq<char>, c: char) -> Seq<char> {
    s.take(first_index(s, c))
}

/// What stands after the first `c` in `s`, where `s` holds a `c`.
pub open spec fn after_first(s: Seq<char>, c: char) -> Option<Seq<char>> {
    if first_index(s, c) < s.len() {
        Some(s.skip(first_index(s, c) + 1))
    } else {
        None
    }
}

/// Parts `s` at its first `c`: what stands before it, and what stands
/// after it where there is a `c`.
pub fn split_at_first(s: &str, c: char) -> (r: (String, Option<String>))
    ensures
        r.0@ == before_first(s@, c),
        r.1 is Some == after_first(s@, c) is Some,
        r.1 matches Some(rest) ==> Some(rest@) == after_first(s@, c),
{
    let mut before = String::new();
    let mut rest = String::new();
    let mut found = false;
    let ghost mut at: int = 0;
    for x in it: s.chars()
        invariant
            it.seq() == s@,
            !found ==> at == it.index() && rest@.len() == 0,
            found ==> at < it.index() && s@[at] == c && rest@ == s@.subrange(at + 1, it.index() as int),
            0 <= at <= it.index(),
            before@ == s@.take(at),
            forall|j: int| 0 <= j < at ==> s@[j] != c,
    {
        if found {
            rest.push(x);
            assert(rest@ =~= s@.subrange(at + 1, it.index() + 1));
        } else if x == c {
            found = true;
            assert(rest@ =~= s@.subrange(at + 1, it.index() + 1));
        } else {
            before.push(x);
            proof {
                at = at + 1;
            }
            assert(before@ =~= s@.take(at));
        }
    }
    proof {
        lemma_first_index(s@, c, at);
    }
    if found {
        assert(rest@ =~= s@.skip(at + 1));
        (before, Some(rest))
    } else {
        (before, None)
    }
}

/// The character that stands for the digit `d`.
pub open spec fn digit(d: int) -> char {
    if d == 0 {
        '0'
    } else if d == 1 {
        '1'
    } else if d == 2 {
        '2'
    } else if d == 3 {
        '3'
    } else if d == 4 {
        '4'
    } else if d == 5 {
        '5'
    } else if d == 6 {
        '6'
    } else if d == 7 {
        '7'
    } else if d == 8 {
        '8'
    } else {
        '9'
    }
}

/// The number `n` as it is written in the decimal system.
pub open spec fn decimal_text(n: nat) -> Seq<char>
    decreases n,
{
    if n < 10 {
        seq![digit(n as int)]
    } else {
        decimal_text(n / 10).push(digit((n % 10) as int))
    }
}

/// The number `n` as it is written in the decimal system, with a minus
/// sign before it where it is negative.
pub open spec fn signed_decimal_text(n: int) -> Seq<char> {
    if n < 0 {
        seq!['-'] + decimal_text((-n) as nat)
    } else {
        decimal_text(n as nat)
    }
}

fn digit_char(d: u64) -> (r: char)
    requires
        d < 10,
    ensures
        r == digit(d as int),
{
    if d == 0 {
        '0'
    } else if d == 1 {
        '1'
    } else if d == 2 {
        '2'
    } else if d == 3 {
        '3'
    } else if d == 4 {
        '4'
    } else if d == 5 {
        '5'
    } else if d == 6 {
        '6'
    } else if d == 7 {
        '7'
    } else if d == 8 {
        '8'
    } else {
        '9'
    }
}

/// Writes `n` in the decimal system at the end of `out`.
pub fn push_decimal(out: &mut String, n: u64)
    ensures
        final(out)@ == old(out)@ + decimal_text(n as nat),
    decreases n,
{
    if n >= 10 {
        push_decimal(out, n / 10);
    }
    out.push(digit_char(n % 10));
    assert(out@ =~= old(out)@ + decimal_text(n as nat));
}

/// Writes `n` in the decimal system at the end of `out`, with a minus sign
/// before it where it is negative.
pub fn push_signed_decimal(out: &mut String, n: i64)
    ensures
        final(out)@ == old(out)@ + signed_decimal_text(n as int),
{
    if n < 0 {
        out.push('-');
        let magnitude: u64 = (-(n + 1)) as u64 + 1;
        push_decimal(out, magnitude);
        assert(out@ =~= old(out)@ + signed_decimal_text(n as int));
    } else {
        push_decimal(out, n as u64);
    }
}

} // verus!
