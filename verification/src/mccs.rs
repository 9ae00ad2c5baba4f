//! Parsing of MCCS capability strings.
//!
//! A monitor reports what it supports as a nested list in parentheses, such
//! as `(prot(monitor)type(lcd)vcp(10 12 60(01 03 11)))`. This module turns
//! that text into tokens, the tokens into a tree, and the tree into the
//! key/value entries and command lists that the rest of the library reads.

use vstd::prelude::*;
use vstd::string::StringExecFns;
use crate::grammar::{
    first_expression, lemma_first_expression_by_descent, paired, parsed_entries, scan_expr,
    scan_items, with_items_before, ExpressionView,
};
use crate::lexing::{
    cleaned, close_paren, lemma_split_word, no_space, open_paren, pad_parens, padded,
    split_tokens, squeeze_spaces,
};
use crate::text::{push_char, same_text};

verus! {

/// Why a capability string could not be read.
#[derive(Debug, Clone, Copy, PartialEq, Eq)]
pub enum ParserErrorKind {
    /// The tokens ended before an expression was complete.
    UnexpectedEof,
    /// A closing parenthesis stands where an expression must begin.
    InvalidStructure,
    /// The outermost expression is no list, or has an odd number of items.
    MalformedTopLevel,
    /// A list stands where the key of an entry must be.
    KeyNotAtom,
    /// The last key has no value behind it.
    DanglingKey,
}

/// A failure to read a capability string.
#[derive(Debug, Clone, Copy, PartialEq, Eq)]
pub struct ParserError {
    pub kind: ParserErrorKind,
}

impl ParserError {
    /// The words that describe this failure.
    pub open spec fn spec_message(self) -> Seq<char> {
        match self.kind {
            ParserErrorKind::UnexpectedEof => "unexpected eof"@,
            ParserErrorKind::InvalidStructure => "invalid cap string"@,
            ParserErrorKind::MalformedTopLevel => "top level expr must be list"@,
            ParserErrorKind::KeyNotAtom => "key isn't an atom"@,
            ParserErrorKind::DanglingKey => "key without value"@,
        }
    }

    /// The text of this error as it is shown to a reader.
    pub open spec fn spec_to_string(self) -> Seq<char> {
        "Parser Error: "@ + self.spec_message()
    }

    /// A failure of the given kind.
    pub fn new(kind: ParserErrorKind) -> (err: ParserError)
        ensures
            err.kind == kind,
    {
        ParserError { kind }
    }

    /// The words that describe this failure.
    pub fn message(&self) -> (text: &'static str)
        ensures
            text@ == self.spec_message(),
    {
        match self.kind {
            ParserErrorKind::UnexpectedEof => "unexpected eof",
            ParserErrorKind::InvalidStructure => "invalid cap string",
            ParserErrorKind::MalformedTopLevel => "top level expr must be list",
            ParserErrorKind::KeyNotAtom => "key isn't an atom",
            ParserErrorKind::DanglingKey => "key without value",
        }
    }

    /// The text of this error as it is shown to a reader.
    pub fn to_string(&self) -> (text: String)
        ensures
            text@ == self.spec_to_string(),
    {
        String::from_str("Parser Error: ").concat(self.message())
    }
}

/// A node of the tree that a capability string is read into.
#[derive(Debug, PartialEq, Eq)]
pub enum Expression {
    Atom(String),
    List(Vec<Expression>),
}

impl View for Expression {
    type V = ExpressionView;

    open spec fn view(&self) -> ExpressionView
        decreases self,
    {
        match self {
            Expression::Atom(text) => ExpressionView::Atom(text@),
            Expression::List(items) => ExpressionView::List(
                Seq::new(
                    items.len() as nat,
                    |i: int|
                        if 0 <= i < items.len() {
                            items[i].view()
                        } else {
                            // Not reached: `i` is a place of the list.
                            ExpressionView::Atom(Seq::empty())
                        },
                ),
            ),
        }
    }
}

impl DeepView for Expression {
    type V = ExpressionView;

    open spec fn deep_view(&self) -> ExpressionView {
        self.view()
    }
}

impl Clone for Expression {
    #[verifier::loop_isolation(false)]
    fn clone(&self) -> (copy: Expression)
        ensures
            copy@ == self@,
        decreases self,
    {
        match self {
            Expression::Atom(text) => Expression::Atom(text.clone()),
            Expression::List(items) => {
                let mut copies: Vec<Expression> = Vec::new();
                let mut i: usize = 0;
                while i < items.len()
                    invariant
                        i <= items.len(),
                        copies.len() == i,
                        forall|k: int| 0 <= k < i ==> copies[k]@ == items[k]@,
                    decreases items.len() - i,
                {
                    copies.push(items[i].clone());
                    i += 1;
                }
                proof {
                    lemma_list_view(copies);
                    lemma_list_view(*items);
                    assert(copies.deep_view() =~= items.deep_view());
                }
                Expression::List(copies)
            },
        }
    }
}

/// The view of a list is the list of the views of its items.
pub proof fn lemma_list_view(items: Vec<Expression>)
    ensures
        Expression::List(items)@ == ExpressionView::List(items.deep_view()),
{
    assert(Expression::List(items)@->List_0 =~= items.deep_view());
}

/// Puts a space on either side of every parenthesis of `input`, then
/// collapses every run of spaces to one space.
pub fn clean_input(input: String) -> (res: String)
    ensures
        res@ == cleaned(input@),
{
    let mut spaced = String::new();
    assert(input@.skip(0) == input@);
    for c in it: input.as_str().chars()
        invariant
            it.seq() == input@,
            spaced@ + pad_parens(input@.skip(it.index())) == pad_parens(input@),
    {
        let ghost i = it.index();
        let ghost done = spaced@;
        let ghost ahead = pad_parens(input@.skip(i + 1));
        assert(input@.skip(i).drop_first() == input@.skip(i + 1));
        assert(pad_parens(input@.skip(i)) == padded(c) + ahead);
        if c == '(' || c == ')' {
            push_char(&mut spaced, ' ');
            push_char(&mut spaced, c);
            push_char(&mut spaced, ' ');
        } else {
            push_char(&mut spaced, c);
        }
        assert(spaced@ == done + padded(c));
        assert(spaced@ + ahead == done + (padded(c) + ahead));
    }
    assert(pad_parens(input@.skip(input@.len() as int)) == Seq::<char>::empty());
    assert(spaced@ == pad_parens(input@));

    let mut res = String::new();
    // Whether a space has been read that is not yet written.
    let mut held = false;
    assert(spaced@.skip(0) == spaced@);
    for c in it: spaced.as_str().chars()
        invariant
            it.seq() == spaced@,
            held ==> it.index() >= 1 && spaced@[it.index() - 1] == ' ',
            res@ + squeeze_spaces(spaced@.skip(it.index() - if held { 1int } else { 0 }))
                == squeeze_spaces(spaced@),
    {
        let ghost i = it.index();
        let ghost done = res@;
        let ghost here = spaced@.skip(i);
        let ghost ahead = squeeze_spaces(spaced@.skip(i + 1));
        assert(here.drop_first() == spaced@.skip(i + 1));
        assert(here[0] == c);
        if held {
            let ghost from = spaced@.skip(i - 1);
            assert(from.len() >= 2 && from[0] == ' ' && from[1] == c);
            assert(from.drop_first() == here);
        }
        if c == ' ' {
            held = true;
        } else {
            assert(squeeze_spaces(here) == seq![c] + ahead);
            if held {
                push_char(&mut res, ' ');
                push_char(&mut res, c);
                assert(res@ + ahead == done + (seq![' '] + (seq![c] + ahead)));
                held = false;
            } else {
                push_char(&mut res, c);
                assert(res@ + ahead == done + (seq![c] + ahead));
            }
        }
    }
    if held {
        let ghost done = res@;
        let ghost from = spaced@.skip(spaced@.len() - 1);
        assert(from.len() == 1 && from[0] == ' ');
        assert(from.drop_first().len() == 0);
        assert(squeeze_spaces(from.drop_first()) == Seq::<char>::empty());
        assert(squeeze_spaces(from) == seq![' '] + Seq::<char>::empty());
        push_char(&mut res, ' ');
        assert(res@ == done + squeeze_spaces(from));
    } else {
        assert(squeeze_spaces(spaced@.skip(spaced@.len() as int)) == Seq::<char>::empty());
    }
    res
}

/// Cuts `input` at its spaces and gives the pieces that are not empty, in
/// their order.
pub fn tokenize(input: &str) -> (tokens: Vec<String>)
    ensures
        tokens.deep_view() == split_tokens(input@),
{
    let mut tokens: Vec<String> = Vec::new();
    let mut word = String::new();
    assert(word@ + input@.skip(0) == input@);
    assert(tokens.deep_view() == Seq::<Seq<char>>::empty());
    for c in it: input.chars()
        invariant
            it.seq() == input@,
            no_space(word@),
            tokens.deep_view() + split_tokens(word@ + input@.skip(it.index())) == split_tokens(
                input@,
            ),
    {
        let ghost i = it.index();
        let ghost rest = input@.skip(i);
        let ghost ahead = input@.skip(i + 1);
        let ghost before = tokens.deep_view();
        let ghost letters = word@;
        assert(rest.drop_first() == ahead);
        assert(rest[0] == c);
        assert(Seq::<char>::empty() + ahead == ahead);
        if c == ' ' {
            assert(split_tokens(rest) == split_tokens(ahead));
            if word.as_str().is_empty() {
                assert(letters + rest == rest);
            } else {
                proof {
                    lemma_split_word(letters, rest);
                }
                tokens.push(word);
                assert(tokens.deep_view() == before + seq![letters]);
                assert(tokens.deep_view() + split_tokens(ahead) == before + (seq![letters]
                    + split_tokens(ahead)));
                word = String::new();
            }
        } else {
            push_char(&mut word, c);
            assert(word@ + ahead == letters + rest);
        }
    }
    assert(input@.skip(input@.len() as int) == Seq::<char>::empty());
    assert(word@ + Seq::<char>::empty() == word@);
    if !word.as_str().is_empty() {
        let ghost before = tokens.deep_view();
        let ghost letters = word@;
        proof {
            lemma_split_word(letters, Seq::empty());
        }
        tokens.push(word);
        assert(tokens.deep_view() == before + seq![letters]);
    }
    tokens
}

/// Whether `token` is the parenthesis that opens a list.
fn is_open(token: &String) -> (open: bool)
    ensures
        open == (token@ == open_paren()),
{
    proof {
        reveal_strlit("(");
        assert("("@ =~= open_paren());
    }
    same_text(token.as_str(), "(")
}

/// Whether `token` is the parenthesis that closes a list.
fn is_close(token: &String) -> (close: bool)
    ensures
        close == (token@ == close_paren()),
{
    proof {
        reveal_strlit(")");
        assert(")"@ =~= close_paren());
    }
    same_text(token.as_str(), ")")
}

/// Reads one expression that begins at index `start` of `tokens`, and says
/// where the tokens behind it begin.
#[verifier::loop_isolation(false)]
fn read_expression(tokens: &Vec<String>, start: usize) -> (res: Result<
    (Expression, usize),
    ParserError,
>)
    requires
        start <= tokens.len(),
    ensures
        match res {
            Ok((e, next)) => start < next <= tokens.len() && scan_expr(
                tokens.deep_view().skip(start as int),
            ) == Ok::<_, ParserErrorKind>((e@, tokens.deep_view().skip(next as int))),
            Err(err) => scan_expr(tokens.deep_view().skip(start as int)) == Err::<
                (ExpressionView, Seq<Seq<char>>),
                _,
            >(err.kind),
        },
    decreases tokens.len() - start,
{
    let ghost all = tokens.deep_view();
    if start >= tokens.len() {
        return Err(ParserError::new(ParserErrorKind::UnexpectedEof));
    }
    let token = &tokens[start];
    assert(all.skip(start as int)[0] == token@);
    assert(all.skip(start as int).drop_first() == all.skip(start + 1));
    if is_open(token) {
        let mut items: Vec<Expression> = Vec::new();
        let mut at: usize = start + 1;
        assert(items.deep_view() == Seq::<ExpressionView>::empty());
        assert(Seq::<ExpressionView>::empty() + Seq::<ExpressionView>::empty() == Seq::<
            ExpressionView,
        >::empty());
        loop
            invariant
                start < at <= tokens.len(),
                all == tokens.deep_view(),
                scan_items(all.skip(start + 1)) == with_items_before(
                    items.deep_view(),
                    scan_items(all.skip(at as int)),
                ),
            decreases tokens.len() - at,
        {
            let ghost here = all.skip(at as int);
            let ghost before = items.deep_view();
            if at < tokens.len() {
                assert(here[0] == tokens[at as int]@);
                assert(here.drop_first() == all.skip(at + 1));
                if is_close(&tokens[at]) {
                    proof {
                        lemma_list_view(items);
                        assert(before + Seq::<ExpressionView>::empty() == before);
                    }
                    return Ok((Expression::List(items), at + 1));
                }
            }
            match read_expression(tokens, at) {
                Err(err) => {
                    return Err(err);
                },
                Ok((item, next)) => {
                    let ghost later = scan_items(all.skip(next as int));
                    assert(scan_items(here) == with_items_before(seq![item@], later));
                    items.push(item);
                    assert(items.deep_view() == before + seq![item@]);
                    assert(with_items_before(before, with_items_before(seq![item@], later))
                        == with_items_before(items.deep_view(), later)) by {
                        if let Ok((others, _)) = later {
                            assert(before + (seq![item@] + others) == (before + seq![item@])
                                + others);
                        }
                    }
                    at = next;
                },
            }
        }
    } else if is_close(token) {
        Err(ParserError::new(ParserErrorKind::InvalidStructure))
    } else {
        Ok((Expression::Atom(token.clone()), start + 1))
    }
}

/// Reads the expression at the front of `tokens`. Tokens behind it are not
/// looked at.
pub fn read_from_tokens(tokens: &Vec<String>) -> (res: Result<Expression, ParserError>)
    ensures
        match res {
            Ok(e) => first_expression(tokens.deep_view()) == Ok::<_, ParserErrorKind>(e@),
            Err(err) => first_expression(tokens.deep_view()) == Err::<ExpressionView, _>(
                err.kind,
            ),
        },
{
    proof {
        assert(tokens.deep_view().skip(0) == tokens.deep_view());
        lemma_first_expression_by_descent(tokens.deep_view());
    }
    match read_expression(tokens, 0) {
        Ok((e, _)) => Ok(e),
        Err(err) => Err(err),
    }
}

/// Pairs the items of the outermost list into entries of key and value, in
/// their order. Entries with the same key all stay.
pub fn pair_entries(list: Vec<Expression>) -> (res: Result<
    Vec<(String, Expression)>,
    ParserError,
>)
    ensures
        match res {
            Ok(entries) => paired(list.deep_view()) == Ok::<_, ParserErrorKind>(
                entries.deep_view(),
            ),
            Err(err) => paired(list.deep_view()) == Err::<Seq<(Seq<char>, ExpressionView)>, _>(
                err.kind,
            ),
        },
{
    let ghost items = list.deep_view();
    let mut entries: Vec<(String, Expression)> = Vec::new();
    // The key that waits for its value.
    let mut key: Option<String> = None;
    for item in it: list
        invariant
            it.seq() == list@,
            items == list.deep_view(),
            forall|j: int| 0 <= j < it.index() && j % 2 == 0 ==> #[trigger] items[j] is Atom,
            2 * entries.len() + (if key is Some { 1int } else { 0 }) == it.index(),
            key matches Some(text) ==> items[it.index() - 1] == ExpressionView::Atom(text@),
            forall|j: int|
                0 <= j < entries.len() ==> #[trigger] entries.deep_view()[j] == (
                    items[2 * j]->Atom_0,
                    items[2 * j + 1],
                ),
    {
        let ghost i = it.index();
        let ghost before = entries.deep_view();
        assert(items[i] == item@);
        match key {
            None => {
                match item {
                    Expression::Atom(text) => {
                        key = Some(text);
                    },
                    Expression::List(_) => {
                        return Err(ParserError::new(ParserErrorKind::KeyNotAtom));
                    },
                }
            },
            Some(text) => {
                entries.push((text, item));
                assert(entries.deep_view() == before.push((text@, item@)));
                key = None;
            },
        }
    }
    if key.is_some() {
        return Err(ParserError::new(ParserErrorKind::DanglingKey));
    }
    assert(entries.deep_view() == paired(items)->Ok_0);
    Ok(entries)
}

/// Reads a capability string into its entries of key and value, in the
/// order of the text.
pub fn parse_cap_string(cap_string: String) -> (res: Result<
    Vec<(String, Expression)>,
    ParserError,
>)
    ensures
        match res {
            Ok(entries) => parsed_entries(cap_string@) == Ok::<_, ParserErrorKind>(
                entries.deep_view(),
            ),
            Err(err) => parsed_entries(cap_string@) == Err::<
                Seq<(Seq<char>, ExpressionView)>,
                _,
            >(err.kind),
        },
{
    let cleaned = clean_input(cap_string);
    let tokens = tokenize(cleaned.as_str());
    match read_from_tokens(&tokens) {
        Err(err) => Err(err),
        Ok(Expression::Atom(_)) => Err(ParserError::new(ParserErrorKind::MalformedTopLevel)),
        Ok(Expression::List(list)) => {
            proof {
                lemma_list_view(list);
            }
            if list.len() % 2 == 0 {
                pair_entries(list)
            } else {
                Err(ParserError::new(ParserErrorKind::MalformedTopLevel))
            }
        },
    }
}

/// A command as a mathematical value.
pub ghost struct CommandView {
    pub command: Seq<char>,
    pub values: Seq<CommandView>,
}

/// A command code that a monitor supports, with the values that the
/// monitor lists for it. The values are commands without values of their own.
#[derive(Debug, PartialEq, Eq)]
pub struct VCPCommand {
    pub command: String,
    pub values: Vec<VCPCommand>,
}

impl View for VCPCommand {
    type V = CommandView;

    open spec fn view(&self) -> CommandView
        decreases self,
    {
        CommandView {
            command: self.command@,
            values: Seq::new(
                self.values.len() as nat,
                |i: int|
                    if 0 <= i < self.values.len() {
                        self.values[i].view()
                    } else {
                        // Not reached: `i` is a place of the list.
                        leaf(Seq::empty())
                    },
            ),
        }
    }
}

impl DeepView for VCPCommand {
    type V = CommandView;

    open spec fn deep_view(&self) -> CommandView {
        self.view()
    }
}

/// The view of a command is made of the views of its code and of its
/// values.
pub proof fn lemma_command_view(cmd: VCPCommand)
    ensures
        cmd@ == (CommandView { command: cmd.command@, values: cmd.values.deep_view() }),
{
    assert(cmd@.values =~= cmd.values.deep_view());
}

impl Clone for VCPCommand {
    #[verifier::loop_isolation(false)]
    fn clone(&self) -> (copy: VCPCommand)
        ensures
            copy@ == self@,
        decreases self,
    {
        let mut values: Vec<VCPCommand> = Vec::new();
        let mut i: usize = 0;
        while i < self.values.len()
            invariant
                i <= self.values.len(),
                values.len() == i,
                forall|k: int| 0 <= k < i ==> values[k]@ == self.values[k]@,
            decreases self.values.len() - i,
        {
            values.push(self.values[i].clone());
            i += 1;
        }
        let copy = VCPCommand { command: self.command.clone(), values };
        proof {
            lemma_command_view(copy);
            lemma_command_view(*self);
            assert(copy.values.deep_view() =~= self.values.deep_view());
        }
        copy
    }
}

impl Default for VCPCommand {
    /// The command with an empty code and no values.
    fn default() -> (cmd: VCPCommand)
        ensures
            cmd@ == leaf(Seq::empty()),
    {
        let cmd = VCPCommand { command: String::new(), values: Vec::new() };
        proof {
            lemma_command_view(cmd);
            assert(cmd.values.deep_view() =~= Seq::empty());
        }
        cmd
    }
}

/// A copy of a list of commands.
pub fn clone_commands(commands: &Vec<VCPCommand>) -> (copies: Vec<VCPCommand>)
    ensures
        copies.deep_view() == commands.deep_view(),
{
    let mut copies: Vec<VCPCommand> = Vec::new();
    let mut i: usize = 0;
    while i < commands.len()
        invariant
            i <= commands.len(),
            copies.len() == i,
            forall|k: int| 0 <= k < i ==> copies[k]@ == commands[k]@,
        decreases commands.len() - i,
    {
        copies.push(commands[i].clone());
        i += 1;
    }
    assert(copies.deep_view() =~= commands.deep_view());
    copies
}

/// The command with the code `text` and no values.
pub open spec fn leaf(text: Seq<char>) -> CommandView {
    CommandView { command: text, values: Seq::empty() }
}

/// The text of a value that is written as a list of one atom: the first
/// item of the list where that is an atom, and the empty text otherwise.
pub open spec fn atom_text(value: ExpressionView) -> Seq<char> {
    match value {
        ExpressionView::List(items) => if items.len() > 0 && items[0] is Atom {
            items[0]->Atom_0
        } else {
            Seq::empty()
        },
        ExpressionView::Atom(_) => Seq::empty(),
    }
}

/// The atoms among the first `n` of `items`, each as a command without
/// values, in their order.
pub open spec fn leaves(items: Seq<ExpressionView>, n: int) -> Seq<CommandView>
    decreases n,
{
    if n <= 0 {
        Seq::empty()
    } else {
        leaves(items, n - 1) + match items[n - 1] {
            ExpressionView::Atom(text) => seq![leaf(text)],
            ExpressionView::List(_) => Seq::empty(),
        }
    }
}

/// The values that the item at index `i` of `items` claims: the atoms of
/// the list that follows it at once, if a list does.
pub open spec fn values_after(items: Seq<ExpressionView>, i: int) -> Seq<CommandView> {
    if i + 1 < items.len() && items[i + 1] is List {
        leaves(items[i + 1]->List_0, items[i + 1]->List_0.len() as int)
    } else {
        Seq::empty()
    }
}

/// The commands that the first `n` of `items` stand for: one for each atom,
/// with the values that it claims, in their order. A list is no command.
pub open spec fn commands_in(items: Seq<ExpressionView>, n: int) -> Seq<CommandView>
    decreases n,
{
    if n <= 0 {
        Seq::empty()
    } else {
        commands_in(items, n - 1) + match items[n - 1] {
            ExpressionView::Atom(text) => seq![
                CommandView { command: text, values: values_after(items, n - 1) },
            ],
            ExpressionView::List(_) => Seq::empty(),
        }
    }
}

/// The commands that `value` lists. An atom lists none.
pub open spec fn commands_of(value: ExpressionView) -> Seq<CommandView> {
    match value {
        ExpressionView::List(items) => commands_in(items, items.len() as int),
        ExpressionView::Atom(_) => Seq::empty(),
    }
}

/// Gives the text of a value that is written as a list of one atom, and
/// the empty text for every other value.
pub fn extract_atom(expression: Expression) -> (text: String)
    ensures
        text@ == atom_text(expression@),
{
    match &expression {
        Expression::List(list) => {
            proof {
                lemma_list_view(*list);
            }
            if list.len() == 0 {
                return String::new();
            }
            match &list[0] {
                Expression::Atom(value) => value.clone(),
                Expression::List(_) => String::new(),
            }
        },
        Expression::Atom(_) => String::new(),
    }
}

/// The atoms of `list`, each as a command without values.
fn collect_values(list: &Vec<Expression>) -> (values: Vec<VCPCommand>)
    ensures
        values.deep_view() == leaves(list.deep_view(), list.len() as int),
{
    let ghost items = list.deep_view();
    let mut values: Vec<VCPCommand> = Vec::new();
    let mut j: usize = 0;
    assert(values.deep_view() == leaves(items, 0));
    while j < list.len()
        invariant
            j <= list.len(),
            items == list.deep_view(),
            values.deep_view() == leaves(items, j as int),
        decreases list.len() - j,
    {
        let ghost before = values.deep_view();
        assert(items[j as int] == list[j as int]@);
        match &list[j] {
            Expression::Atom(value) => {
                let cmd = VCPCommand { command: value.clone(), values: Vec::new() };
                proof {
                    lemma_command_view(cmd);
                    assert(cmd.values.deep_view() == Seq::<CommandView>::empty());
                }
                values.push(cmd);
                assert(values.deep_view() == before + seq![leaf(value@)]);
            },
            Expression::List(_) => {
                assert(before + Seq::<CommandView>::empty() == before);
            },
        }
        j += 1;
    }
    values
}

/// Lists the commands of a value: every atom of the list is a command, and
/// where a list follows an atom at once, the atoms of that list are the
/// values of the command. The list itself is no command.
pub fn extract_vcp_commands(expression: Expression) -> (cmds: Vec<VCPCommand>)
    ensures
        cmds.deep_view() == commands_of(expression@),
{
    let mut cmds: Vec<VCPCommand> = Vec::new();
    assert(cmds.deep_view() == Seq::<CommandView>::empty());
    match &expression {
        Expression::List(list) => {
            let ghost items = list.deep_view();
            proof {
                lemma_list_view(*list);
            }
            let mut i: usize = 0;
            while i < list.len()
                invariant
                    i <= list.len(),
                    items == list.deep_view(),
                    cmds.deep_view() == commands_in(items, i as int),
                decreases list.len() - i,
            {
                let ghost before = cmds.deep_view();
                assert(items[i as int] == list[i as int]@);
                match &list[i] {
                    Expression::Atom(code) => {
                        let mut values: Vec<VCPCommand> = Vec::new();
                        assert(values.deep_view() == Seq::<CommandView>::empty());
                        if i + 1 < list.len() {
                            assert(items[i + 1] == list[i + 1]@);
                            match &list[i + 1] {
                                Expression::List(inner) => {
                                    proof {
                                        lemma_list_view(*inner);
                                    }
                                    values = collect_values(inner);
                                },
                                Expression::Atom(_) => {},
                            }
                        }
                        let cmd = VCPCommand { command: code.clone(), values };
                        proof {
                            lemma_command_view(cmd);
                        }
                        cmds.push(cmd);
                        assert(cmds.deep_view() == before + seq![cmd@]);
                    },
                    Expression::List(_) => {
                        assert(before + Seq::<CommandView>::empty() == before);
                    },
                }
                i += 1;
            }
        },
        Expression::Atom(_) => {},
    }
    cmds
}

} // verus!
