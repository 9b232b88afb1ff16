//! Texts taken apart at a separator.

use vstd::prelude::*;

verus! {

/// The texts of a sequence of strings.
pub open spec fn texts(strings: Seq<String>) -> Seq<Seq<char>> {
    strings.map_values(|s: String| s@)
}

/// The pieces between the occurrences of `separator` in `text`, in order.
/// A text with `n` separators has `n + 1` pieces, some of which may be empty.
pub open spec fn split(text: Seq<char>, separator: char) -> Seq<Seq<char>>
    decreases text.len(),
{
    if text.len() == 0 {
        seq![Seq::empty()]
    } else {
        let before = split(text.drop_last(), separator);
        if text.last() == separator {
            before.push(Seq::empty())
        } else {
            before.drop_last().push(before.last().push(text.last()))
        }
    }
}

/// Splitting what ends in a separator and a piece without one gives that
/// piece last.
pub proof fn split_after_separator(text: Seq<char>, piece: Seq<char>, separator: char)
    requires
        !piece.contains(separator),
    ensures
        split(text.push(separator) + piece, separator) == split(text, separator).push(piece),
    decreases piece.len(),
{
    let whole = text.push(separator) + piece;
    if piece.len() == 0 {
        assert(whole.drop_last() =~= text);
        assert(piece =~= Seq::<char>::empty());
    } else {
        let shorter = piece.drop_last();
        split_after_separator(text, shorter, separator);
        assert(whole.drop_last() =~= text.push(separator) + shorter);
        assert(shorter.push(piece.last()) =~= piece);
    }
}

/// A text that holds no separator is its own single piece.
pub proof fn split_without_separator(text: Seq<char>, separator: char)
    requires
        !text.contains(separator),
    ensures
        split(text, separator) == seq![text],
    decreases text.len(),
{
    if text.len() == 0 {
        assert(text =~= Seq::<char>::empty());
    } else {
        let shorter = text.drop_last();
        assert(text[text.len() - 1] != separator);
        assert forall|i: int| 0 <= i < shorter.len() implies shorter[i] != separator by {
            assert(text[i] == shorter[i]);
        }
        split_without_separator(shorter, separator);
        assert(shorter.push(text.last()) =~= text);
        assert(seq![shorter].drop_last().push(text) =~= seq![text]);
    }
}

/// Splits a text at every occurrence of a separator.
pub fn split_text(text: &str, separator: char) -> (pieces: Vec<String>)
    ensures
        texts(pieces@) == split(text@, separator),
{
    let mut pieces: Vec<String> = Vec::new();
    let mut start: usize = 0;
    let mut at: usize = 0;
    let length: usize = text.unicode_len();
    proof {
        assert(text@.subrange(0, 0) =~= Seq::<char>::empty());
    }
    for c in it: text.chars()
        invariant
            it.seq() == text@,
            length == text@.len(),
            at == it.index(),
            start <= at <= length,
            texts(pieces@).push(text@.subrange(start as int, at as int)) == split(
                text@.take(at as int),
                separator,
            ),
    {
        let ghost before = split(text@.take(at as int), separator);
        proof {
            assert(text@.take(at + 1).drop_last() =~= text@.take(at as int));
        }
        if c == separator {
            let piece = text.substring_char(start, at).to_owned();
            pieces.push(piece);
            start = at + 1;
            proof {
                assert(text@.subrange(start as int, at + 1) =~= Seq::<char>::empty());
            }
        } else {
            proof {
                assert(text@.subrange(start as int, at + 1) =~= before.last().push(c));
            }
        }
        at = at + 1;
    }
    let piece = text.substring_char(start, length).to_owned();
    pieces.push(piece);
    proof {
        assert(text@.take(at as int) =~= text@);
    }
    pieces
}

/// Whether a text holds a character.
pub fn holds(text: &str, wanted: char) -> (found: bool)
    ensures
        found == text@.contains(wanted),
{
    let mut found = false;
    let ghost mut seen: int = 0;
    for c in it: text.chars()
        invariant
            it.seq() == text@,
            seen == it.index(),
            found == text@.take(seen).contains(wanted),
    {
        proof {
            let before = text@.take(seen);
            let after = text@.take(seen + 1);
            if before.contains(wanted) {
                let i = choose|i: int| 0 <= i < before.len() && before[i] == wanted;
                assert(after[i] == wanted);
            }
            if c == wanted {
                assert(after[seen] == wanted);
            }
            seen = seen + 1;
        }
        if c == wanted {
            found = true;
        }
    }
    proof {
        assert(text@.take(seen) =~= text@);
    }
    found
}

} // verus!
