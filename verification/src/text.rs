//! Strings as sequences of characters: taking them apart, putting them
//! together, and writing numbers in decimal.

use vstd::prelude::*;

verus! {

/// `String::push`: appends the character `c` to `text`.
#[verifier::external_body]
pub(crate) fn push_char(text: &mut String, c: char)
    ensures
        final(text)@ == old(text)@.push(c),
{
    text.push(c);
}

/// Whether two strings hold the same characters.
pub fn same_text(first: &str, second: &str) -> (same: bool)
    ensures
        same == (first@ == second@),
{
    first.to_owned() == second.to_owned()
}

/// The character of the decimal digit `digit`.
pub open spec fn digit_char(digit: nat) -> char {
    if digit == 0 {
        '0'
    } else if digit == 1 {
        '1'
    } else if digit == 2 {
        '2'
    } else if digit == 3 {
        '3'
    } else if digit == 4 {
        '4'
    } else if digit == 5 {
        '5'
    } else if digit == 6 {
        '6'
    } else if digit == 7 {
        '7'
    } else if digit == 8 {
        '8'
    } else {
        '9'
    }
}

/// The decimal notation of `number`, without leading zeros.
pub open spec fn decimal(number: nat) -> Seq<char>
    decreases number,
{
    if number < 10 {
        seq![digit_char(number)]
    } else {
        decimal(number / 10).push(digit_char(number % 10))
    }
}

/// The character of the decimal digit `value`.
pub fn digit(value: u64) -> (c: char)
    requires
        value < 10,
    ensures
        c == digit_char(value as nat),
{
    if value == 0 {
        '0'
    } else if value == 1 {
        '1'
    } else if value == 2 {
        '2'
    } else if value == 3 {
        '3'
    } else if value == 4 {
        '4'
    } else if value == 5 {
        '5'
    } else if value == 6 {
        '6'
    } else if value == 7 {
        '7'
    } else if value == 8 {
        '8'
    } else {
        '9'
    }
}

/// Appends the decimal notation of `number`, without leading zeros, to
/// `text`.
pub fn push_decimal(text: &mut String, number: u64)
    ensures
        final(text)@ == old(text)@ + decimal(number as nat),
    decreases number,
{
    if number >= 10 {
        push_decimal(text, number / 10);
    }
    push_char(text, digit(number % 10));
    assert(text@ =~= old(text)@ + decimal(number as nat));
}

/// The decimal notation of `number`, without leading zeros.
pub fn digits(number: u64) -> (text: String)
    ensures
        text@ == decimal(number as nat),
{
    let mut text = String::new();
    push_decimal(&mut text, number);
    assert(text@ =~= decimal(number as nat));
    text
}

/// The lines of `text`: the stretches between its line feeds. A text
/// without a line feed is one line, and a line feed at the end is followed
/// by an empty line.
pub open spec fn lines(text: Seq<char>) -> Seq<Seq<char>>
    decreases text.len(),
{
    if text.len() == 0 {
        seq![Seq::empty()]
    } else {
        let before = lines(text.drop_last());
        if text.last() == '\n' {
            before.push(Seq::empty())
        } else {
            before.drop_last().push(before.last().push(text.last()))
        }
    }
}

/// The lines `parts` put together again, a line feed between each two.
pub open spec fn joined(parts: Seq<Seq<char>>) -> Seq<char>
    decreases parts.len(),
{
    if parts.len() == 0 {
        Seq::empty()
    } else if parts.len() == 1 {
        parts[0]
    } else {
        joined(parts.drop_last()) + seq!['\n'] + parts.last()
    }
}

/// How often `c` occurs in `text`.
pub open spec fn occurrences(text: Seq<char>, c: char) -> nat
    decreases text.len(),
{
    if text.len() == 0 {
        0
    } else {
        occurrences(text.drop_last(), c) + if text.last() == c {
            1nat
        } else {
            0nat
        }
    }
}

/// Splitting loses nothing and invents nothing: there is one line more than
/// line feeds, no line holds a line feed, and the lines joined by line feeds
/// are the text.
pub proof fn lemma_lines(text: Seq<char>)
    ensures
        lines(text).len() == occurrences(text, '\n') + 1,
        forall|i: int| 0 <= i < lines(text).len() ==> !(#[trigger] lines(text)[i]).contains('\n'),
        joined(lines(text)) == text,
    decreases text.len(),
{
    if text.len() == 0 {
        assert(joined(lines(text)) =~= text);
    } else {
        let front = text.drop_last();
        let before = lines(front);
        lemma_lines(front);
        if text.last() == '\n' {
            let now = before.push(Seq::empty());
            assert(now.drop_last() =~= before);
            assert(joined(now) =~= joined(before) + seq!['\n'] + Seq::<char>::empty());
            assert(front + seq!['\n'] =~= text);
            assert(joined(now) =~= text);
        } else {
            let grown = before.last().push(text.last());
            let now = before.drop_last().push(grown);
            assert forall|i: int| 0 <= i < now.len() implies !(#[trigger] now[i]).contains('\n') by {
                if i == now.len() - 1 {
                    assert(!before[i].contains('\n'));
                    if grown.contains('\n') {
                        let at = choose|at: int| 0 <= at < grown.len() && grown[at] == '\n';
                        assert(before[i][at] == '\n');
                    }
                } else {
                    assert(now[i] == before[i]);
                }
            }
            assert(now.drop_last() =~= before.drop_last());
            if before.len() == 1 {
                assert(joined(before) == before[0]);
                assert(joined(now) =~= front.push(text.last()));
            } else {
                assert(joined(now) =~= joined(before.drop_last()) + seq!['\n'] + grown);
                assert(joined(before) =~= joined(before.drop_last()) + seq!['\n'] + before.last());
                assert(joined(now) =~= joined(before).push(text.last()));
            }
            assert(front.push(text.last()) =~= text);
        }
    }
}

/// The lines of `text`, each as a string of its own.
pub fn split_lines(text: &str) -> (parts: Vec<String>)
    ensures
        parts@.len() == lines(text@).len(),
        forall|i: int| 0 <= i < parts@.len() ==> (#[trigger] parts@[i])@ == lines(text@)[i],
{
    let mut parts: Vec<String> = Vec::new();
    let mut current = String::new();
    proof {
        assert(text@.take(0) =~= Seq::<char>::empty());
    }
    for c in it: text.chars()
        invariant
            it.seq() == text@,
            parts@.len() + 1 == lines(text@.take(it.index() as int)).len(),
            forall|j: int|
                0 <= j < parts@.len() ==> (#[trigger] parts@[j])@ == lines(
                    text@.take(it.index() as int),
                )[j],
            current@ == lines(text@.take(it.index() as int)).last(),
    {
        proof {
            let i = it.index() as int;
            assert(text@.take(i + 1).drop_last() =~= text@.take(i));
            assert(text@.take(i + 1).last() == text@[i]);
        }
        if c == '\n' {
            parts.push(current);
            current = String::new();
        } else {
            push_char(&mut current, c);
        }
    }
    proof {
        assert(text@.take(text@.len() as int) =~= text@);
    }
    parts.push(current);
    parts
}

} // verus!
