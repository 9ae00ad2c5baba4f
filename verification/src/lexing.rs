//! The text of a capability string, taken apart into tokens.
//!
//! A capability string is cut at spaces, and every parenthesis is a token of
//! its own. The functions here say so over sequences of characters.

use vstd::prelude::*;

verus! {

/// The token that opens a list.
pub open spec fn open_paren() -> Seq<char> {
    seq!['(']
}

/// The token that closes a list.
pub open spec fn close_paren() -> Seq<char> {
    seq![')']
}

/// A character as it stands after padding: a parenthesis gets a space on
/// either side, any other character stays as it is.
pub open spec fn padded(c: char) -> Seq<char> {
    if c == '(' || c == ')' {
        seq![' ', c, ' ']
    } else {
        seq![c]
    }
}

/// `text` with a space put on either side of every parenthesis.
pub open spec fn pad_parens(text: Seq<char>) -> Seq<char>
    decreases text.len(),
{
    if text.len() == 0 {
        Seq::empty()
    } else {
        padded(text[0]) + pad_parens(text.drop_first())
    }
}

/// `text` with every run of spaces collapsed to one space: a space that
/// another space follows is left out.
pub open spec fn squeeze_spaces(text: Seq<char>) -> Seq<char>
    decreases text.len(),
{
    if text.len() == 0 {
        Seq::empty()
    } else if text.len() >= 2 && text[0] == ' ' && text[1] == ' ' {
        squeeze_spaces(text.drop_first())
    } else {
        seq![text[0]] + squeeze_spaces(text.drop_first())
    }
}

/// The normal form of a capability string: parentheses padded, then runs
/// of spaces collapsed.
pub open spec fn cleaned(text: Seq<char>) -> Seq<char> {
    squeeze_spaces(pad_parens(text))
}

/// Length of the longest prefix of `text` that holds no space.
pub open spec fn word_len(text: Seq<char>) -> nat
    decreases text.len(),
{
    if text.len() == 0 || text[0] == ' ' {
        0
    } else {
        1 + word_len(text.drop_first())
    }
}

/// The maximal runs of characters other than the space, from left to right.
pub open spec fn split_tokens(text: Seq<char>) -> Seq<Seq<char>>
    decreases text.len(),
{
    if text.len() == 0 {
        Seq::empty()
    } else if text[0] == ' ' {
        split_tokens(text.drop_first())
    } else {
        proof {
            lemma_word_len_bounds(text);
        }
        seq![text.take(word_len(text) as int)] + split_tokens(text.skip(word_len(text) as int))
    }
}

/// Whether `text` holds no space.
pub open spec fn no_space(text: Seq<char>) -> bool {
    forall|i: int| 0 <= i < text.len() ==> text[i] != ' '
}

/// Whether `text` is empty or begins with a space.
pub open spec fn starts_apart(text: Seq<char>) -> bool {
    text.len() == 0 || text[0] == ' '
}

/// A word is never longer than the text it is taken from, and is not empty
/// where the text begins with a character other than the space.
pub proof fn lemma_word_len_bounds(text: Seq<char>)
    ensures
        word_len(text) <= text.len(),
        text.len() > 0 && text[0] != ' ' ==> word_len(text) >= 1,
    decreases text.len(),
{
    if text.len() > 0 && text[0] != ' ' {
        lemma_word_len_bounds(text.drop_first());
    }
}

/// A word followed by a space or by the end of the text is measured whole.
pub proof fn lemma_word_len_of_word(word: Seq<char>, rest: Seq<char>)
    requires
        no_space(word),
        starts_apart(rest),
    ensures
        word_len(word + rest) == word.len(),
    decreases word.len(),
{
    if word.len() == 0 {
        assert(word + rest =~= rest);
    } else {
        assert((word + rest).drop_first() =~= word.drop_first() + rest);
        lemma_word_len_of_word(word.drop_first(), rest);
    }
}

/// A word followed by a space or by the end of the text is the first token.
pub proof fn lemma_split_word(word: Seq<char>, rest: Seq<char>)
    requires
        word.len() > 0,
        no_space(word),
        starts_apart(rest),
    ensures
        split_tokens(word + rest) == seq![word] + split_tokens(rest),
{
    let text = word + rest;
    lemma_word_len_of_word(word, rest);
    assert(text.take(word.len() as int) =~= word);
    assert(text.skip(word.len() as int) =~= rest);
}

/// Whether `c` is one of the three characters that end an atom.
pub open spec fn is_delimiter(c: char) -> bool {
    c == ' ' || c == '(' || c == ')'
}

/// Whether `text` can be the text of an atom: it is not empty and holds no
/// space and no parenthesis.
pub open spec fn is_atom_text(text: Seq<char>) -> bool {
    text.len() > 0 && forall|i: int| 0 <= i < text.len() ==> !is_delimiter(#[trigger] text[i])
}

/// Whether `text` is a token of a capability string: the text of an atom, or
/// one parenthesis.
pub open spec fn is_token(text: Seq<char>) -> bool {
    is_atom_text(text) || text == open_paren() || text == close_paren()
}

/// Whether every one of `tokens` is a token of a capability string.
pub open spec fn all_tokens(tokens: Seq<Seq<char>>) -> bool {
    forall|i: int| 0 <= i < tokens.len() ==> is_token(#[trigger] tokens[i])
}

/// The text in which `tokens` stand one after the other, each followed by
/// one space.
pub open spec fn written(tokens: Seq<Seq<char>>) -> Seq<char>
    decreases tokens.len(),
{
    if tokens.len() == 0 {
        Seq::empty()
    } else {
        tokens[0] + seq![' '] + written(tokens.drop_first())
    }
}

/// The tokens of a text that begins with a character other than the space,
/// from the tokens of the text behind that character: the character is a
/// token of its own where a space or the end follows, and else it is put
/// before the first token of what follows.
pub proof fn lemma_split_after_char(c: char, text: Seq<char>)
    requires
        c != ' ',
    ensures
        starts_apart(text) ==> split_tokens(seq![c] + text) == seq![seq![c]] + split_tokens(
            text,
        ),
        !starts_apart(text) ==> split_tokens(text).len() > 0 && split_tokens(text)[0][0]
            == text[0] && split_tokens(seq![c] + text) == seq![
            seq![c] + split_tokens(text)[0],
        ] + split_tokens(text).drop_first(),
{
    let whole = seq![c] + text;
    let n = word_len(text) as int;
    lemma_word_len_bounds(text);
    assert(whole.drop_first() == text);
    assert(word_len(whole) == 1 + n);
    assert(whole.take(1 + n) == seq![c] + text.take(n));
    assert(whole.skip(1 + n) == text.skip(n));
    if starts_apart(text) {
        assert(text.take(0) == Seq::<char>::empty());
        assert(text.skip(0) == text);
        assert(seq![c] + Seq::<char>::empty() == seq![c]);
    } else {
        let rest = split_tokens(text.skip(n));
        assert(split_tokens(text) == seq![text.take(n)] + rest);
        assert(split_tokens(text).drop_first() == rest);
    }
}

/// Collapsing keeps a text empty or not, and keeps its first character.
pub proof fn lemma_squeeze_keeps_start(text: Seq<char>)
    ensures
        squeeze_spaces(text).len() == 0 <==> text.len() == 0,
        text.len() > 0 ==> squeeze_spaces(text)[0] == text[0],
    decreases text.len(),
{
    if text.len() > 0 {
        lemma_squeeze_keeps_start(text.drop_first());
    }
}

/// Collapsing runs of spaces does not change the tokens of a text.
pub proof fn lemma_squeeze_keeps_tokens(text: Seq<char>)
    ensures
        split_tokens(squeeze_spaces(text)) == split_tokens(text),
    decreases text.len(),
{
    if text.len() > 0 {
        let behind = text.drop_first();
        lemma_squeeze_keeps_tokens(behind);
        if text.len() >= 2 && text[0] == ' ' && text[1] == ' ' {
        } else {
            let squeezed = seq![text[0]] + squeeze_spaces(behind);
            assert(squeezed.drop_first() == squeeze_spaces(behind));
            if text[0] != ' ' {
                lemma_squeeze_keeps_start(behind);
                lemma_split_after_char(text[0], squeeze_spaces(behind));
                lemma_split_after_char(text[0], behind);
                assert(seq![text[0]] + behind == text);
            }
        }
    }
}

/// The tokens of a cleaned text are those of the text with its parentheses
/// padded: that runs of spaces are collapsed is of no account.
pub proof fn lemma_tokens_of_cleaned(text: Seq<char>)
    ensures
        split_tokens(cleaned(text)) == split_tokens(pad_parens(text)),
{
    lemma_squeeze_keeps_tokens(pad_parens(text));
}

/// A padded text is empty or begins with a space, unless it begins with a
/// character that is no delimiter.
pub proof fn lemma_pad_start(text: Seq<char>)
    ensures
        text.len() == 0 ==> pad_parens(text).len() == 0,
        text.len() > 0 && is_delimiter(text[0]) ==> pad_parens(text).len() > 0 && pad_parens(
            text,
        )[0] == ' ',
        text.len() > 0 && !is_delimiter(text[0]) ==> pad_parens(text).len() > 0 && pad_parens(
            text,
        )[0] == text[0],
{
}

/// Every token of a cleaned text is the text of an atom or one
/// parenthesis.
pub proof fn lemma_cleaned_gives_tokens(text: Seq<char>)
    ensures
        all_tokens(split_tokens(cleaned(text))),
{
    lemma_tokens_of_cleaned(text);
    lemma_padded_gives_tokens(text);
}

proof fn lemma_padded_gives_tokens(text: Seq<char>)
    ensures
        all_tokens(split_tokens(pad_parens(text))),
    decreases text.len(),
{
    if text.len() > 0 {
        let c = text[0];
        let behind = pad_parens(text.drop_first());
        let tokens = split_tokens(behind);
        let whole = pad_parens(text);
        lemma_padded_gives_tokens(text.drop_first());
        lemma_pad_start(text.drop_first());
        assert(whole == padded(c) + behind);
        if c == ' ' {
            assert(whole.drop_first() == behind);
        } else if c == '(' || c == ')' {
            let after = seq![' '] + behind;
            assert(whole.drop_first() == seq![c] + after);
            assert(after.drop_first() == behind);
            lemma_split_after_char(c, after);
            let found = seq![seq![c]] + tokens;
            assert(split_tokens(whole) == found);
            assert forall|i: int| 0 <= i < found.len() implies is_token(#[trigger] found[i]) by {
                if i > 0 {
                    assert(found[i] == tokens[i - 1]);
                }
            }
        } else {
            lemma_split_after_char(c, behind);
            assert(whole == seq![c] + behind);
            if starts_apart(behind) {
                let found = seq![seq![c]] + tokens;
                assert(is_atom_text(seq![c]));
                assert forall|i: int| 0 <= i < found.len() implies is_token(
                    #[trigger] found[i],
                ) by {
                    if i > 0 {
                        assert(found[i] == tokens[i - 1]);
                    }
                }
            } else {
                let first = tokens[0];
                let joined = seq![c] + first;
                let found = seq![joined] + tokens.drop_first();
                assert(is_token(first));
                assert(!is_delimiter(first[0]));
                assert(open_paren()[0] == '(' && close_paren()[0] == ')');
                assert(is_atom_text(first));
                assert(is_atom_text(joined)) by {
                    assert forall|k: int| 0 <= k < joined.len() implies !is_delimiter(
                        #[trigger] joined[k],
                    ) by {
                        if k > 0 {
                            assert(joined[k] == first[k - 1]);
                        }
                    }
                }
                assert forall|i: int| 0 <= i < found.len() implies is_token(
                    #[trigger] found[i],
                ) by {
                    if i > 0 {
                        assert(found[i] == tokens[i]);
                    }
                }
            }
        }
    }
}

/// Padding a text of two parts is padding each part.
pub proof fn lemma_pad_concat(a: Seq<char>, b: Seq<char>)
    ensures
        pad_parens(a + b) == pad_parens(a) + pad_parens(b),
    decreases a.len(),
{
    if a.len() == 0 {
        assert(a + b == b);
    } else {
        assert((a + b).drop_first() == a.drop_first() + b);
        lemma_pad_concat(a.drop_first(), b);
    }
}

/// Padding leaves a text without parentheses as it is.
pub proof fn lemma_pad_plain(text: Seq<char>)
    requires
        forall|i: int| 0 <= i < text.len() ==> text[i] != '(' && text[i] != ')',
    ensures
        pad_parens(text) == text,
    decreases text.len(),
{
    if text.len() > 0 {
        lemma_pad_plain(text.drop_first());
        assert(seq![text[0]] + text.drop_first() == text);
    }
}

/// Padding a single character.
pub proof fn lemma_pad_single(c: char)
    ensures
        pad_parens(seq![c]) == padded(c),
{
    let text = seq![c];
    assert(text.drop_first().len() == 0);
    assert(pad_parens(text.drop_first()) == Seq::<char>::empty());
    assert(padded(c) + Seq::<char>::empty() == padded(c));
}

/// Tokens that are written one after the other and cleaned are split into
/// the same tokens again.
pub proof fn lemma_split_written(tokens: Seq<Seq<char>>)
    requires
        all_tokens(tokens),
    ensures
        split_tokens(cleaned(written(tokens))) == tokens,
{
    lemma_tokens_of_cleaned(written(tokens));
    lemma_split_padded_written(tokens);
}

proof fn lemma_split_padded_written(tokens: Seq<Seq<char>>)
    requires
        all_tokens(tokens),
    ensures
        split_tokens(pad_parens(written(tokens))) == tokens,
    decreases tokens.len(),
{
    if tokens.len() > 0 {
        let first = tokens[0];
        let others = tokens.drop_first();
        let later = pad_parens(written(others));
        assert(is_token(first));
        assert forall|i: int| 0 <= i < others.len() implies is_token(#[trigger] others[i]) by {
            assert(others[i] == tokens[i + 1]);
        }
        lemma_split_padded_written(others);
        assert(written(tokens) == first + (seq![' '] + written(others)));
        lemma_pad_concat(first, seq![' '] + written(others));
        lemma_pad_concat(seq![' '], written(others));
        lemma_pad_single(' ');
        let spaced = seq![' '] + later;
        assert(spaced.drop_first() == later);
        assert(pad_parens(written(tokens)) == pad_parens(first) + spaced);
        assert(seq![first] + others == tokens);
        assert(split_tokens(spaced) == others);
        if is_atom_text(first) {
            assert(no_space(first)) by {
                assert forall|i: int| 0 <= i < first.len() implies first[i] != ' ' by {
                    assert(!is_delimiter(first[i]));
                }
            }
            assert forall|i: int| 0 <= i < first.len() implies first[i] != '(' && first[i]
                != ')' by {
                assert(!is_delimiter(first[i]));
            }
            lemma_pad_plain(first);
            lemma_split_word(first, spaced);
            assert(split_tokens(pad_parens(written(tokens))) == seq![first] + others);
        } else {
            let c = first[0];
            assert(first == seq![c]);
            lemma_pad_single(c);
            let wide = seq![' '] + spaced;
            assert(wide.drop_first() == spaced);
            assert(pad_parens(first) + spaced == seq![' '] + (first + wide));
            assert((seq![' '] + (first + wide)).drop_first() == first + wide);
            assert(no_space(first));
            lemma_split_word(first, wide);
            assert(split_tokens(wide) == split_tokens(spaced));
            assert(split_tokens(pad_parens(written(tokens))) == split_tokens(first + wide));
            assert(split_tokens(pad_parens(written(tokens))) == seq![first] + others);
        }
    } else {
        assert(tokens == Seq::<Seq<char>>::empty());
        assert(pad_parens(written(tokens)).len() == 0);
    }
}

} // verus!
