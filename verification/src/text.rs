//! Character-level helpers on which the rest of the crate builds its text handling.
//!
//! Strings are modelled by their view, a `Seq<char>`. The executable functions
//! work on `Vec<char>` copies, so that indexing is constant time.

use vstd::prelude::*;
use vstd::string::*;

verus! {

/// `String::push`: appends one character at the end.
#[verifier::external_body]
pub(crate) fn push_char(text: &mut String, c: char)
    ensures
        final(text)@ == old(text)@.push(c),
{
    text.push(c);
}

/// The views of a sequence of strings.
pub open spec fn views(strings: Seq<String>) -> Seq<Seq<char>> {
    Seq::new(strings.len(), |i: int| strings[i]@)
}

/// The view of an optional string.
pub open spec fn option_view(text: Option<String>) -> Option<Seq<char>> {
    match text {
        Some(t) => Some(t@),
        None => None,
    }
}

/// The lines of a text: a line feed closes the current line and opens a new,
/// empty one; any other character extends the current line.
pub open spec fn split_lines(text: Seq<char>) -> Seq<Seq<char>>
    decreases text.len(),
{
    if text.len() == 0 {
        seq![Seq::<char>::empty()]
    } else {
        let before = split_lines(text.drop_last());
        if text.last() == '\n' {
            before.push(Seq::<char>::empty())
        } else {
            before.drop_last().push(before.last().push(text.last()))
        }
    }
}

/// The lines joined by single line feeds.
pub open spec fn join_lines(lines: Seq<Seq<char>>) -> Seq<char>
    decreases lines.len(),
{
    if lines.len() == 0 {
        Seq::<char>::empty()
    } else if lines.len() == 1 {
        lines[0]
    } else {
        join_lines(lines.drop_last()).push('\n') + lines.last()
    }
}

/// The lines that hold at least one character, in order.
pub open spec fn non_empty_lines(lines: Seq<Seq<char>>) -> Seq<Seq<char>>
    decreases lines.len(),
{
    if lines.len() == 0 {
        Seq::<Seq<char>>::empty()
    } else if lines.last().len() > 0 {
        non_empty_lines(lines.drop_last()).push(lines.last())
    } else {
        non_empty_lines(lines.drop_last())
    }
}

/// A text always has at least one line.
pub proof fn lemma_split_lines_len(text: Seq<char>)
    ensures
        split_lines(text).len() >= 1,
        split_lines(text).len() <= text.len() + 1,
    decreases text.len(),
{
    if text.len() > 0 {
        lemma_split_lines_len(text.drop_last());
    }
}

/// Joining the lines of a text gives the text back.
pub proof fn lemma_join_split_lines(text: Seq<char>)
    ensures
        join_lines(split_lines(text)) == text,
    decreases text.len(),
{
    if text.len() == 0 {
        assert(join_lines(split_lines(text)) =~= text);
    } else {
        let shorter = text.drop_last();
        let before = split_lines(shorter);
        lemma_split_lines_len(shorter);
        lemma_join_split_lines(shorter);
        if text.last() == '\n' {
            let lines = before.push(Seq::<char>::empty());
            assert(lines.drop_last() =~= before);
            assert(join_lines(lines) =~= shorter.push('\n'));
            assert(shorter.push('\n') =~= text);
        } else {
            let grown = before.last().push(text.last());
            let lines = before.drop_last().push(grown);
            assert(lines.drop_last() =~= before.drop_last());
            if before.len() == 1 {
                assert(join_lines(lines) =~= shorter.push(text.last()));
            } else {
                assert(join_lines(lines) =~= (join_lines(before.drop_last()).push('\n')
                    + before.last()).push(text.last()));
            }
            assert(shorter.push(text.last()) =~= text);
        }
    }
}

/// Twice the number of non-empty lines of a text is at most one more than its
/// length: each such line but the last is followed by a line feed.
pub proof fn lemma_non_empty_lines_bound(text: Seq<char>)
    ensures
        2 * non_empty_lines(split_lines(text)).len() <= text.len() + (if split_lines(
            text,
        ).last().len() > 0 {
            1int
        } else {
            0int
        }),
    decreases text.len(),
{
    if text.len() > 0 {
        let shorter = text.drop_last();
        let before = split_lines(shorter);
        lemma_split_lines_len(shorter);
        lemma_non_empty_lines_bound(shorter);
        if text.last() == '\n' {
            let lines = before.push(Seq::<char>::empty());
            assert(lines.drop_last() =~= before);
            assert(non_empty_lines(lines) == non_empty_lines(before));
            assert(split_lines(text) == lines);
        } else {
            let grown = before.last().push(text.last());
            let lines = before.drop_last().push(grown);
            assert(lines.drop_last() =~= before.drop_last());
            assert(lines.last() == grown);
            assert(non_empty_lines(lines) == non_empty_lines(before.drop_last()).push(grown));
            assert(non_empty_lines(before).len() >= non_empty_lines(before.drop_last()).len());
            assert(split_lines(text) == lines);
            if before.last().len() == 0 {
                assert(non_empty_lines(before) == non_empty_lines(before.drop_last()));
            }
        }
    } else {
        let lines = split_lines(text);
        assert(lines.drop_last() =~= Seq::<Seq<char>>::empty());
        assert(non_empty_lines(lines.drop_last()).len() == 0);
        assert(non_empty_lines(lines) == non_empty_lines(lines.drop_last()));
    }
}

/// The characters of `s`, in order.
pub fn to_chars(s: &str) -> (chars: Vec<char>)
    ensures
        chars@ == s@,
{
    let mut chars: Vec<char> = Vec::new();
    for c in it: s.chars()
        invariant
            chars@ == it.seq().take(it.index()),
            it.seq() == s@,
    {
        chars.push(c);
    }
    chars
}

/// The string made of `chars[from..to]`.
pub fn from_chars(chars: &Vec<char>, from: usize, to: usize) -> (s: String)
    requires
        from <= to <= chars.len(),
    ensures
        s@ == chars@.subrange(from as int, to as int),
{
    let mut s = String::new();
    let mut i: usize = from;
    while i < to
        invariant
            from <= i <= to <= chars.len(),
            s@ == chars@.subrange(from as int, i as int),
        decreases to - i,
    {
        push_char(&mut s, chars[i]);
        i += 1;
    }
    s
}

/// Splits a text into its lines.
pub fn split(text: &str) -> (lines: Vec<String>)
    ensures
        views(lines@) == split_lines(text@),
        text@.len() <= usize::MAX,
{
    let chars = to_chars(text);
    let mut lines: Vec<String> = Vec::new();
    let mut current = String::new();
    let mut i: usize = 0;
    proof {
        assert(chars@.take(0) =~= Seq::<char>::empty());
        assert(views(lines@).push(current@) =~= split_lines(chars@.take(0)));
    }
    while i < chars.len()
        invariant
            i <= chars.len(),
            views(lines@).push(current@) == split_lines(chars@.take(i as int)),
        decreases chars.len() - i,
    {
        let c = chars[i];
        proof {
            let next = chars@.take(i + 1);
            assert(next.drop_last() =~= chars@.take(i as int));
            assert(next.last() == c);
            assert(views(lines@).push(current@).drop_last() =~= views(lines@));
        }
        let ghost before_lines = lines@;
        let ghost before_current = current@;
        if c == '\n' {
            lines.push(current);
            current = String::new();
            proof {
                assert(views(lines@) =~= views(before_lines).push(before_current));
            }
        } else {
            push_char(&mut current, c);
        }
        i += 1;
    }
    let ghost before_lines = lines@;
    lines.push(current);
    proof {
        assert(chars@.take(chars.len() as int) =~= chars@);
        assert(views(lines@) =~= views(before_lines).push(current@));
    }
    lines
}

/// Joins lines by single line feeds.
pub fn join(lines: &Vec<String>) -> (text: String)
    ensures
        text@ == join_lines(views(lines@)),
{
    let mut text = String::new();
    let mut i: usize = 0;
    proof {
        assert(views(lines@).take(0) =~= Seq::<Seq<char>>::empty());
    }
    while i < lines.len()
        invariant
            i <= lines.len(),
            text@ == join_lines(views(lines@).take(i as int)),
        decreases lines.len() - i,
    {
        proof {
            let next = views(lines@).take(i + 1);
            assert(next.drop_last() =~= views(lines@).take(i as int));
            assert(next.last() == lines@[i as int]@);
            if i == 0 {
                assert(text@ + lines@[0]@ =~= lines@[0]@);
            }
        }
        if i > 0 {
            push_char(&mut text, '\n');
        }
        text.append(lines[i].as_str());
        i += 1;
    }
    proof {
        assert(views(lines@).take(lines.len() as int) =~= views(lines@));
    }
    text
}

/// Whether `pattern` stands in `text` at index `at`.
pub open spec fn occurs_at(text: Seq<char>, pattern: Seq<char>, at: int) -> bool {
    &&& 0 <= at
    &&& at + pattern.len() <= text.len()
    &&& text.subrange(at, at + pattern.len()) == pattern
}

/// Whether `pattern` stands somewhere in `text`.
pub open spec fn contains(text: Seq<char>, pattern: Seq<char>) -> bool {
    exists|at: int| occurs_at(text, pattern, at)
}

/// Whether `text` ends with `suffix`.
pub open spec fn ends_with(text: Seq<char>, suffix: Seq<char>) -> bool {
    occurs_at(text, suffix, text.len() - suffix.len())
}

/// Whether `text` starts with `prefix`.
pub open spec fn starts_with(text: Seq<char>, prefix: Seq<char>) -> bool {
    occurs_at(text, prefix, 0)
}

/// `text` with every occurrence of `from` replaced by `to`, found from left to
/// right without overlap. An empty `from` occurs before every character and at
/// the end.
pub open spec fn replace_all(text: Seq<char>, from: Seq<char>, to: Seq<char>) -> Seq<char>
    decreases text.len(),
{
    if text.len() == 0 {
        if from.len() == 0 {
            to
        } else {
            text
        }
    } else if from.len() == 0 {
        to + seq![text[0]] + replace_all(text.drop_first(), from, to)
    } else if occurs_at(text, from, 0) {
        to + replace_all(text.skip(from.len() as int), from, to)
    } else {
        seq![text[0]] + replace_all(text.drop_first(), from, to)
    }
}

/// The character for a decimal digit.
pub open spec fn digit(d: int) -> char {
    if d == 0 {
        '0'
    } else if d == 1 {
        '1'
    } else if d == 2 {
        '2'
    } else if d == 3 {
        '3'
    } else if d == 4 {
        '4'
    } else if d == 5 {
        '5'
    } else if d == 6 {
        '6'
    } else if d == 7 {
        '7'
    } else if d == 8 {
        '8'
    } else {
        '9'
    }
}

/// A natural number in decimal, without leading zeros.
pub open spec fn decimal(n: nat) -> Seq<char>
    decreases n,
{
    if n < 10 {
        seq![digit(n as int)]
    } else {
        decimal(n / 10).push(digit((n % 10) as int))
    }
}

/// An integer in decimal, with a minus sign where it is negative.
pub open spec fn signed_decimal(n: int) -> Seq<char> {
    if n < 0 {
        seq!['-'] + decimal((-n) as nat)
    } else {
        decimal(n as nat)
    }
}

/// `count` copies of `unit`, one after the other.
pub open spec fn repeated(unit: Seq<char>, count: nat) -> Seq<char>
    decreases count,
{
    if count == 0 {
        Seq::<char>::empty()
    } else {
        repeated(unit, (count - 1) as nat) + unit
    }
}

/// Whether `pattern` stands in `text` at index `at`.
pub fn chars_occur_at(text: &Vec<char>, pattern: &Vec<char>, at: usize) -> (found: bool)
    ensures
        found == occurs_at(text@, pattern@, at as int),
{
    if pattern.len() > text.len() || at > text.len() - pattern.len() {
        return false;
    }
    let mut j: usize = 0;
    while j < pattern.len()
        invariant
            j <= pattern.len(),
            at + pattern.len() <= text.len(),
            forall|k: int| 0 <= k < j ==> text@[at + k] == pattern@[k],
        decreases pattern.len() - j,
    {
        if text[at + j] != pattern[j] {
            proof {
                assert(text@.subrange(at as int, at + pattern.len())[j as int] == text@[at + j]);
            }
            return false;
        }
        j += 1;
    }
    proof {
        assert(text@.subrange(at as int, at + pattern.len()) =~= pattern@);
    }
    true
}

/// Whether `text` ends with `suffix`.
pub fn has_suffix(text: &str, suffix: &str) -> (found: bool)
    ensures
        found == ends_with(text@, suffix@),
{
    let text = to_chars(text);
    let suffix = to_chars(suffix);
    if suffix.len() > text.len() {
        return false;
    }
    chars_occur_at(&text, &suffix, text.len() - suffix.len())
}

/// Whether `pattern` stands somewhere in `text`.
pub fn has_part(text: &str, pattern: &str) -> (found: bool)
    ensures
        found == contains(text@, pattern@),
{
    let chars = to_chars(text);
    let part = to_chars(pattern);
    if part.len() > chars.len() {
        return false;
    }
    if part.len() == 0 {
        proof {
            assert(chars@.subrange(0, 0) =~= part@);
            assert(occurs_at(chars@, part@, 0));
        }
        return true;
    }
    let last = chars.len() - part.len();
    let mut at: usize = 0;
    while at <= last
        invariant
            chars@ == text@,
            part@ == pattern@,
            at <= last + 1,
            last == chars.len() - part.len(),
            part.len() > 0,
            forall|k: int| 0 <= k < at ==> !occurs_at(chars@, part@, k),
        decreases last + 1 - at,
    {
        if chars_occur_at(&chars, &part, at) {
            return true;
        }
        at += 1;
    }
    false
}

/// `text` with every occurrence of `from` replaced by `to`.
pub fn replace(text: &str, from: &str, to: &str) -> (replaced: String)
    ensures
        replaced@ == replace_all(text@, from@, to@),
{
    let chars = to_chars(text);
    let pattern = to_chars(from);
    let mut replaced = String::new();
    let mut i: usize = 0;
    proof {
        assert(chars@.skip(0) =~= chars@);
    }
    while i < chars.len()
        invariant
            i <= chars.len(),
            replaced@ + replace_all(chars@.skip(i as int), pattern@, to@) == replace_all(
                chars@,
                pattern@,
                to@,
            ),
        decreases chars.len() - i,
    {
        let ghost rest = chars@.skip(i as int);
        let ghost before = replaced@;
        proof {
            assert(rest.len() > 0);
            assert(rest[0] == chars@[i as int]);
            assert(rest.drop_first() =~= chars@.skip(i + 1));
            assert(occurs_at(rest, pattern@, 0) == occurs_at(chars@, pattern@, i as int)) by {
                if i + pattern.len() <= chars.len() {
                    assert(rest.subrange(0, pattern@.len() as int) =~= chars@.subrange(
                        i as int,
                        i + pattern@.len(),
                    ));
                }
            }
        }
        if pattern.len() == 0 {
            replaced.append(to);
            push_char(&mut replaced, chars[i]);
            proof {
                assert(replaced@ + replace_all(chars@.skip(i + 1), pattern@, to@) =~= before + (to@
                    + seq![rest[0]] + replace_all(rest.drop_first(), pattern@, to@)));
            }
            i += 1;
        } else if chars_occur_at(&chars, &pattern, i) {
            replaced.append(to);
            proof {
                assert(rest.skip(pattern@.len() as int) =~= chars@.skip(i + pattern@.len()));
                assert(replaced@ + replace_all(chars@.skip(i + pattern@.len()), pattern@, to@)
                    =~= before + (to@ + replace_all(
                    rest.skip(pattern@.len() as int),
                    pattern@,
                    to@,
                )));
            }
            i += pattern.len();
        } else {
            push_char(&mut replaced, chars[i]);
            proof {
                assert(replaced@ + replace_all(chars@.skip(i + 1), pattern@, to@) =~= before + (
                seq![rest[0]] + replace_all(rest.drop_first(), pattern@, to@)));
            }
            i += 1;
        }
    }
    proof {
        assert(chars@.skip(chars.len() as int) =~= Seq::<char>::empty());
    }
    if pattern.len() == 0 {
        replaced.append(to);
    } else {
        proof {
            assert(replaced@ + Seq::<char>::empty() =~= replaced@);
        }
    }
    replaced
}

/// The character for a decimal digit.
fn digit_char(d: u128) -> (c: char)
    requires
        d < 10,
    ensures
        c == digit(d as int),
{
    if d == 0 {
        '0'
    } else if d == 1 {
        '1'
    } else if d == 2 {
        '2'
    } else if d == 3 {
        '3'
    } else if d == 4 {
        '4'
    } else if d == 5 {
        '5'
    } else if d == 6 {
        '6'
    } else if d == 7 {
        '7'
    } else if d == 8 {
        '8'
    } else {
        '9'
    }
}

/// The decimal digits still to be written in front for `rest`.
spec fn leading_digits(rest: nat) -> Seq<char> {
    if rest == 0 {
        Seq::<char>::empty()
    } else {
        decimal(rest)
    }
}

/// A natural number in decimal.
pub fn decimal_string(n: u128) -> (text: String)
    ensures
        text@ == decimal(n as nat),
{
    let mut digits: Vec<char> = Vec::new();
    digits.push(digit_char(n % 10));
    let mut rest: u128 = n / 10;
    proof {
        assert(decimal(n as nat) =~= leading_digits(rest as nat) + digits@.reverse());
    }
    while rest > 0
        invariant
            digits@.len() >= 1,
            decimal(n as nat) == leading_digits(rest as nat) + digits@.reverse(),
        decreases rest,
    {
        let ghost before = digits@;
        digits.push(digit_char(rest % 10));
        proof {
            assert(digits@.reverse() =~= seq![digit((rest % 10) as int)] + before.reverse());
            assert(leading_digits(rest as nat) =~= leading_digits((rest / 10) as nat).push(
                digit((rest % 10) as int),
            ));
            assert(leading_digits(rest as nat) + before.reverse() =~= leading_digits(
                (rest / 10) as nat,
            ) + digits@.reverse());
        }
        rest = rest / 10;
    }
    let mut text = String::new();
    let mut i: usize = digits.len();
    while i > 0
        invariant
            i <= digits@.len(),
            text@ == digits@.reverse().take(digits@.len() - i),
        decreases i,
    {
        i -= 1;
        let ghost before = text@;
        push_char(&mut text, digits[i]);
        proof {
            assert(text@ =~= digits@.reverse().take(digits@.len() - i));
        }
    }
    proof {
        assert(digits@.reverse().take(digits@.len() as int) =~= digits@.reverse());
        assert(leading_digits(0) + digits@.reverse() =~= digits@.reverse());
    }
    text
}

/// An integer in decimal.
pub fn signed_decimal_string(n: i64) -> (text: String)
    ensures
        text@ == signed_decimal(n as int),
{
    if n < 0 {
        let mut text = String::new();
        push_char(&mut text, '-');
        let magnitude: u128 = (0 - (n as i128)) as u128;
        text.append(decimal_string(magnitude).as_str());
        proof {
            assert(text@ =~= seq!['-'] + decimal((-n) as nat));
        }
        text
    } else {
        decimal_string(n as u128)
    }
}

/// `count` copies of `unit`, one after the other.
pub fn repeat(unit: &str, count: usize) -> (text: String)
    ensures
        text@ == repeated(unit@, count as nat),
{
    let mut text = String::new();
    let mut i: usize = 0;
    while i < count
        invariant
            i <= count,
            text@ == repeated(unit@, i as nat),
        decreases count - i,
    {
        text.append(unit);
        i += 1;
    }
    text
}

/// Whether two texts are the same.
pub fn same_text(first: &str, second: &str) -> (same: bool)
    ensures
        same == (first@ == second@),
{
    let a = to_chars(first);
    let b = to_chars(second);
    if a.len() != b.len() {
        return false;
    }
    let found = chars_occur_at(&a, &b, 0);
    proof {
        assert(a@.subrange(0, a@.len() as int) =~= a@);
    }
    found
}

} // verus!
