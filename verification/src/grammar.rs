//! The nested lists that a capability string is made of.
//!
//! An expression is an atom or a list of expressions. Written as tokens, an
//! atom is one token and a list is its items between two parentheses. To read
//! a sequence of tokens is to find the expression whose token form stands at
//! its front.

use vstd::prelude::*;
use crate::lexing::{
    all_tokens, cleaned, close_paren, is_token, lemma_cleaned_gives_tokens,
    lemma_split_written, open_paren, split_tokens, written,
};
use crate::mccs::ParserErrorKind;

verus! {

/// An expression as a mathematical value.
pub ghost enum ExpressionView {
    Atom(Seq<char>),
    List(Seq<ExpressionView>),
}

/// Whether `token` is one of the two parentheses.
pub open spec fn is_paren_token(token: Seq<char>) -> bool {
    token == open_paren() || token == close_paren()
}

/// Whether no atom of `e` is a parenthesis: such an atom could not be told
/// from the end of a list.
pub open spec fn well_formed(e: ExpressionView) -> bool
    decreases e,
{
    match e {
        ExpressionView::Atom(text) => !is_paren_token(text),
        ExpressionView::List(items) => forall|i: int|
            0 <= i < items.len() ==> well_formed(#[trigger] items[i]),
    }
}

/// Whether every expression of `items` is well formed.
pub open spec fn all_well_formed(items: Seq<ExpressionView>) -> bool {
    forall|i: int| 0 <= i < items.len() ==> well_formed(#[trigger] items[i])
}

/// The tokens that `e` is written as.
pub open spec fn flatten(e: ExpressionView) -> Seq<Seq<char>>
    decreases e, 0nat,
{
    match e {
        ExpressionView::Atom(text) => seq![text],
        ExpressionView::List(items) => seq![open_paren()] + flatten_all(items, 0) + seq![
            close_paren(),
        ],
    }
}

/// The tokens of the expressions of `items` from index `from` on, one
/// expression after the other.
pub open spec fn flatten_all(items: Seq<ExpressionView>, from: int) -> Seq<Seq<char>>
    decreases items, items.len() - from,
{
    if 0 <= from < items.len() {
        flatten(items[from]) + flatten_all(items, from + 1)
    } else {
        Seq::empty()
    }
}

/// Whether the tokens of the well-formed expression `e` stand at the front
/// of `tokens`.
pub open spec fn stands_first(e: ExpressionView, tokens: Seq<Seq<char>>) -> bool {
    well_formed(e) && flatten(e).is_prefix_of(tokens)
}

/// The expression at the front of `tokens`, or why there is none. At most one
/// expression stands first (`lemma_stands_first_unique`); what follows it is
/// not looked at.
pub open spec fn first_expression(tokens: Seq<Seq<char>>) -> Result<
    ExpressionView,
    ParserErrorKind,
> {
    if exists|e: ExpressionView| stands_first(e, tokens) {
        Ok(choose|e: ExpressionView| stands_first(e, tokens))
    } else if tokens.len() > 0 && tokens[0] == close_paren() {
        Err(ParserErrorKind::InvalidStructure)
    } else {
        Err(ParserErrorKind::UnexpectedEof)
    }
}

/// The entries that the items of the outermost list stand for: the items at
/// even places are the keys, each followed by its value. A list in the place
/// of a key is refused first; then a last key without a value.
pub open spec fn paired(items: Seq<ExpressionView>) -> Result<
    Seq<(Seq<char>, ExpressionView)>,
    ParserErrorKind,
> {
    if exists|j: int| 0 <= j < items.len() && j % 2 == 0 && #[trigger] items[j] is List {
        Err(ParserErrorKind::KeyNotAtom)
    } else if items.len() % 2 == 1 {
        Err(ParserErrorKind::DanglingKey)
    } else {
        Ok(
            Seq::new(
                (items.len() / 2) as nat,
                |j: int| (items[2 * j]->Atom_0, items[2 * j + 1]),
            ),
        )
    }
}

/// The entries of the capability string `text`, or why it has none: its
/// tokens must begin with a list of an even number of items, which are then
/// paired.
pub open spec fn parsed_entries(text: Seq<char>) -> Result<
    Seq<(Seq<char>, ExpressionView)>,
    ParserErrorKind,
> {
    match first_expression(split_tokens(cleaned(text))) {
        Err(kind) => Err(kind),
        Ok(ExpressionView::Atom(_)) => Err(ParserErrorKind::MalformedTopLevel),
        Ok(ExpressionView::List(items)) => if items.len() % 2 == 0 {
            paired(items)
        } else {
            Err(ParserErrorKind::MalformedTopLevel)
        },
    }
}

/// One expression read from the front of `tokens` by descent, with the
/// tokens that are left.
pub open spec fn scan_expr(tokens: Seq<Seq<char>>) -> Result<
    (ExpressionView, Seq<Seq<char>>),
    ParserErrorKind,
>
    decreases tokens.len(), 0nat,
{
    if tokens.len() == 0 {
        Err(ParserErrorKind::UnexpectedEof)
    } else if tokens[0] == open_paren() {
        match scan_items(tokens.drop_first()) {
            Ok((items, rest)) => Ok((ExpressionView::List(items), rest)),
            Err(kind) => Err(kind),
        }
    } else if tokens[0] == close_paren() {
        Err(ParserErrorKind::InvalidStructure)
    } else {
        Ok((ExpressionView::Atom(tokens[0]), tokens.drop_first()))
    }
}

/// The items of a list read from the front of `tokens` by descent, up to and
/// with the parenthesis that closes the list, with the tokens that are left.
pub open spec fn scan_items(tokens: Seq<Seq<char>>) -> Result<
    (Seq<ExpressionView>, Seq<Seq<char>>),
    ParserErrorKind,
>
    decreases tokens.len(), 1nat,
{
    if tokens.len() > 0 && tokens[0] == close_paren() {
        Ok((Seq::empty(), tokens.drop_first()))
    } else {
        match scan_expr(tokens) {
            Err(kind) => Err(kind),
            Ok((first, rest)) => {
                // An expression takes at least one token, so `rest` is shorter.
                if rest.len() < tokens.len() {
                    match scan_items(rest) {
                        Err(kind) => Err(kind),
                        Ok((others, left)) => Ok((seq![first] + others, left)),
                    }
                } else {
                    Err(ParserErrorKind::UnexpectedEof)
                }
            },
        }
    }
}

/// The outcome `later` of reading further items, with `items` read before
/// them.
pub open spec fn with_items_before(
    items: Seq<ExpressionView>,
    later: Result<(Seq<ExpressionView>, Seq<Seq<char>>), ParserErrorKind>,
) -> Result<(Seq<ExpressionView>, Seq<Seq<char>>), ParserErrorKind> {
    match later {
        Ok((others, left)) => Ok((items + others, left)),
        Err(kind) => Err(kind),
    }
}

/// What is left after an expression is a proper suffix of what was read.
pub proof fn lemma_scan_takes_tokens(tokens: Seq<Seq<char>>)
    ensures
        scan_expr(tokens) matches Ok((_, rest)) ==> rest.len() < tokens.len() && rest
            == tokens.skip(tokens.len() - rest.len()),
        scan_items(tokens) matches Ok((_, rest)) ==> rest.len() < tokens.len() && rest
            == tokens.skip(tokens.len() - rest.len()),
    decreases tokens.len(),
{
    if tokens.len() > 0 {
        let tail = tokens.drop_first();
        lemma_scan_takes_tokens(tail);
        if tokens[0] == open_paren() {
            if let Ok((_, rest)) = scan_items(tail) {
                assert(rest == tokens.skip(tokens.len() - rest.len()));
            }
        } else if tokens[0] != close_paren() {
            assert(tail == tokens.skip(tokens.len() - tail.len()));
        }
        // The two facts about `scan_expr(tokens)` are known now.
        if tokens[0] == close_paren() {
            assert(tail == tokens.skip(tokens.len() - tail.len()));
        } else if let Ok((_, rest)) = scan_expr(tokens) {
            lemma_scan_takes_tokens(rest);
            if let Ok((_, left)) = scan_items(rest) {
                assert(left == tokens.skip(tokens.len() - left.len()));
            }
        }
    }
}

/// The tokens of a list are those of its first item, then those of the
/// others.
pub proof fn lemma_flatten_all_first(first: ExpressionView, others: Seq<ExpressionView>)
    ensures
        flatten_all(seq![first] + others, 0) == flatten(first) + flatten_all(others, 0),
{
    lemma_flatten_all_shift(first, others, 0);
    assert((seq![first] + others)[0] == first);
}

proof fn lemma_flatten_all_shift(first: ExpressionView, others: Seq<ExpressionView>, from: int)
    requires
        0 <= from <= others.len(),
    ensures
        flatten_all(seq![first] + others, from + 1) == flatten_all(others, from),
    decreases others.len() - from,
{
    let items = seq![first] + others;
    if from < others.len() {
        assert(items[from + 1] == others[from]);
        lemma_flatten_all_shift(first, others, from + 1);
    }
}

/// A well-formed expression has at least one token, and its first token
/// closes no list.
pub proof fn lemma_flatten_begins(e: ExpressionView)
    requires
        well_formed(e),
    ensures
        flatten(e).len() >= 1,
        flatten(e)[0] != close_paren(),
{
    match e {
        ExpressionView::Atom(text) => {},
        ExpressionView::List(items) => {
            assert(open_paren()[0] != close_paren()[0]);
        },
    }
}

/// What descent reads as an expression is well formed, and its tokens
/// together with the tokens that are left are the tokens that were read.
pub proof fn lemma_scan_expr_sound(tokens: Seq<Seq<char>>)
    ensures
        scan_expr(tokens) matches Ok((e, rest)) ==> well_formed(e) && flatten(e) + rest == tokens,
    decreases tokens.len(), 0nat,
{
    if tokens.len() > 0 {
        let tail = tokens.drop_first();
        assert(seq![tokens[0]] + tail == tokens);
        if tokens[0] == open_paren() {
            lemma_scan_items_sound(tail);
            if let Ok((items, rest)) = scan_items(tail) {
                let e = ExpressionView::List(items);
                let inner = flatten_all(items, 0) + seq![close_paren()] + rest;
                assert(flatten(e) + rest == seq![open_paren()] + inner);
            }
        }
    }
}

/// What descent reads as the items of a list are well-formed expressions,
/// and their tokens, the closing parenthesis and the tokens that are left
/// are the tokens that were read.
pub proof fn lemma_scan_items_sound(tokens: Seq<Seq<char>>)
    ensures
        scan_items(tokens) matches Ok((items, rest)) ==> all_well_formed(items) && flatten_all(
            items,
            0,
        ) + seq![close_paren()] + rest == tokens,
    decreases tokens.len(), 1nat,
{
    if tokens.len() > 0 && tokens[0] == close_paren() {
        assert(Seq::<Seq<char>>::empty() + seq![close_paren()] + tokens.drop_first() == tokens);
    } else if let Ok((first, rest)) = scan_expr(tokens) {
        lemma_scan_expr_sound(tokens);
        lemma_scan_takes_tokens(tokens);
        lemma_scan_items_sound(rest);
        if let Ok((others, left)) = scan_items(rest) {
            let items = seq![first] + others;
            lemma_flatten_all_first(first, others);
            assert(all_well_formed(items)) by {
                assert forall|i: int| 0 <= i < items.len() implies well_formed(
                    #[trigger] items[i],
                ) by {
                    if i > 0 {
                        assert(items[i] == others[i - 1]);
                    }
                }
            }
            let closing = flatten_all(others, 0) + seq![close_paren()] + left;
            assert(flatten_all(items, 0) + seq![close_paren()] + left == flatten(first)
                + closing);
        }
    }
}

/// Descent reads back a well-formed expression from its tokens, whatever
/// follows them.
pub proof fn lemma_scan_expr_complete(e: ExpressionView, rest: Seq<Seq<char>>)
    requires
        well_formed(e),
    ensures
        scan_expr(flatten(e) + rest) == Ok::<_, ParserErrorKind>((e, rest)),
    decreases e, 0nat,
{
    let tokens = flatten(e) + rest;
    match e {
        ExpressionView::Atom(text) => {
            assert(tokens.drop_first() == rest);
        },
        ExpressionView::List(items) => {
            lemma_scan_items_complete(items, 0, rest);
            assert(tokens.drop_first() == flatten_all(items, 0) + seq![close_paren()] + rest);
            assert(items.skip(0) == items);
        },
    }
}

/// Descent reads back the items of a list of well-formed expressions from
/// their tokens and the parenthesis that closes the list.
pub proof fn lemma_scan_items_complete(
    items: Seq<ExpressionView>,
    from: int,
    rest: Seq<Seq<char>>,
)
    requires
        all_well_formed(items),
        0 <= from <= items.len(),
    ensures
        scan_items(flatten_all(items, from) + seq![close_paren()] + rest) == Ok::<
            _,
            ParserErrorKind,
        >((items.skip(from), rest)),
    decreases items, items.len() - from,
{
    let tokens = flatten_all(items, from) + seq![close_paren()] + rest;
    if from == items.len() {
        assert(tokens.drop_first() == rest);
        assert(items.skip(from) == Seq::<ExpressionView>::empty());
    } else {
        let first = items[from];
        let later = flatten_all(items, from + 1) + seq![close_paren()] + rest;
        assert(well_formed(first));
        lemma_flatten_begins(first);
        assert(tokens == flatten(first) + later);
        assert(tokens[0] == flatten(first)[0]);
        lemma_scan_expr_complete(first, later);
        lemma_scan_items_complete(items, from + 1, rest);
        assert(seq![first] + items.skip(from + 1) == items.skip(from));
    }
}

/// Descent fails on a closing parenthesis at the very front, and otherwise
/// only because the tokens end too early.
pub proof fn lemma_scan_failure(tokens: Seq<Seq<char>>)
    ensures
        scan_expr(tokens) matches Err(kind) ==> kind == if tokens.len() > 0 && tokens[0]
            == close_paren() {
            ParserErrorKind::InvalidStructure
        } else {
            ParserErrorKind::UnexpectedEof
        },
        scan_items(tokens) matches Err(kind) ==> kind == ParserErrorKind::UnexpectedEof,
    decreases tokens.len(),
{
    if tokens.len() > 0 {
        lemma_scan_failure(tokens.drop_first());
        assert(open_paren()[0] != close_paren()[0]);
        if tokens[0] != close_paren() {
            if let Ok((_, rest)) = scan_expr(tokens) {
                lemma_scan_takes_tokens(tokens);
                lemma_scan_failure(rest);
            }
        }
    }
}

/// The expression at the front of `tokens` is the one that descent reads,
/// and there is none exactly where descent fails.
pub proof fn lemma_first_expression_by_descent(tokens: Seq<Seq<char>>)
    ensures
        first_expression(tokens) == match scan_expr(tokens) {
            Ok((e, _)) => Ok::<ExpressionView, ParserErrorKind>(e),
            Err(kind) => Err(kind),
        },
{
    match scan_expr(tokens) {
        Ok((e, rest)) => {
            lemma_scan_expr_sound(tokens);
            assert(flatten(e).is_prefix_of(flatten(e) + rest));
            assert(stands_first(e, tokens));
            let found = choose|c: ExpressionView| stands_first(c, tokens);
            lemma_stands_first_unique(found, e, tokens);
        },
        Err(kind) => {
            lemma_scan_failure(tokens);
            assert forall|e: ExpressionView| !stands_first(e, tokens) by {
                if stands_first(e, tokens) {
                    let rest = tokens.skip(flatten(e).len() as int);
                    assert(flatten(e) + rest == tokens);
                    lemma_scan_expr_complete(e, rest);
                }
            }
        },
    }
}

/// At most one well-formed expression stands at the front of a sequence of
/// tokens.
pub proof fn lemma_stands_first_unique(
    a: ExpressionView,
    b: ExpressionView,
    tokens: Seq<Seq<char>>,
)
    requires
        stands_first(a, tokens),
        stands_first(b, tokens),
    ensures
        a == b,
{
    let after_a = tokens.skip(flatten(a).len() as int);
    let after_b = tokens.skip(flatten(b).len() as int);
    assert(flatten(a) + after_a == tokens);
    assert(flatten(b) + after_b == tokens);
    lemma_scan_expr_complete(a, after_a);
    lemma_scan_expr_complete(b, after_b);
}

/// Reading the tokens of a well-formed expression gives the expression
/// back, whatever tokens follow them.
pub proof fn lemma_read_written(e: ExpressionView, rest: Seq<Seq<char>>)
    requires
        well_formed(e),
    ensures
        first_expression(flatten(e) + rest) == Ok::<ExpressionView, ParserErrorKind>(e),
{
    lemma_scan_expr_complete(e, rest);
    lemma_first_expression_by_descent(flatten(e) + rest);
}

/// The items of the outermost list that stands for `entries`: each key as
/// an atom, followed by its value.
pub open spec fn entry_items(entries: Seq<(Seq<char>, ExpressionView)>) -> Seq<ExpressionView> {
    Seq::new(
        2 * entries.len(),
        |i: int|
            if i % 2 == 0 {
                ExpressionView::Atom(entries[i / 2].0)
            } else {
                entries[i / 2].1
            },
    )
}

/// A capability string that stands for `entries`: the tokens of the list of
/// their keys and values, each followed by a space.
pub open spec fn written_entries(entries: Seq<(Seq<char>, ExpressionView)>) -> Seq<char> {
    written(flatten(ExpressionView::List(entry_items(entries))))
}

/// The entries that were read from a capability string, written out as a
/// capability string again, are read as the same entries: the same keys in
/// the same order, each with the same value.
pub proof fn lemma_written_entries_parse_back(text: Seq<char>)
    requires
        parsed_entries(text) is Ok,
    ensures
        parsed_entries(written_entries(parsed_entries(text)->Ok_0)) == parsed_entries(text),
{
    let tokens = split_tokens(cleaned(text));
    let root = first_expression(tokens)->Ok_0;
    let items = root->List_0;
    let entries = parsed_entries(text)->Ok_0;
    assert(stands_first(root, tokens));
    assert(entry_items(entries) == items) by {
        assert forall|i: int| 0 <= i < items.len() implies entry_items(entries)[i]
            == items[i] by {
            if i % 2 == 0 {
                assert(!(items[i] is List));
            }
        }
    }
    let again = flatten(root);
    assert(all_tokens(again)) by {
        lemma_cleaned_gives_tokens(text);
        assert forall|i: int| 0 <= i < again.len() implies is_token(#[trigger] again[i]) by {
            assert(again[i] == tokens[i]);
        }
    }
    lemma_split_written(again);
    assert(again + Seq::<Seq<char>>::empty() == again);
    lemma_read_written(root, Seq::empty());
}

/// A capability string whose outermost list has an odd number of items is
/// refused as malformed, whatever the items are.
pub proof fn lemma_odd_list_is_malformed(text: Seq<char>, items: Seq<ExpressionView>)
    requires
        first_expression(split_tokens(cleaned(text))) == Ok::<ExpressionView, ParserErrorKind>(
            ExpressionView::List(items),
        ),
        items.len() % 2 == 1,
    ensures
        parsed_entries(text) == Err::<Seq<(Seq<char>, ExpressionView)>, ParserErrorKind>(
            ParserErrorKind::MalformedTopLevel,
        ),
{
}

/// No capability string is refused for a key without a value: a list with
/// such a key has an odd number of items, and is refused as malformed.
pub proof fn lemma_no_dangling_key(text: Seq<char>)
    ensures
        parsed_entries(text) != Err::<Seq<(Seq<char>, ExpressionView)>, ParserErrorKind>(
            ParserErrorKind::DanglingKey,
        ),
{
}

} // verus!
