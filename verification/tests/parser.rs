use monitor_control::mccs::{
    extract_atom, extract_vcp_commands, pair_entries, parse_cap_string, read_from_tokens,
    Expression, ParserError, ParserErrorKind, VCPCommand,
};

fn atom(text: &str) -> Expression {
    Expression::Atom(text.to_string())
}

fn list(items: Vec<Expression>) -> Expression {
    Expression::List(items)
}

fn tokens(items: &[&str]) -> Vec<String> {
    items.iter().map(|s| s.to_string()).collect()
}

fn leaf(code: &str) -> VCPCommand {
    VCPCommand { command: code.to_string(), values: vec![] }
}

fn command(code: &str, values: &[&str]) -> VCPCommand {
    VCPCommand { command: code.to_string(), values: values.iter().map(|v| leaf(v)).collect() }
}

/// The tokens of an expression, each followed by a space.
fn written(e: &Expression, out: &mut String) {
    match e {
        Expression::Atom(text) => {
            out.push_str(text);
            out.push(' ');
        }
        Expression::List(items) => {
            out.push_str("( ");
            for item in items {
                written(item, out);
            }
            out.push_str(") ");
        }
    }
}

/// A capability string that stands for the given entries.
fn written_entries(entries: &[(String, Expression)]) -> String {
    let mut items = vec![];
    for (key, value) in entries {
        items.push(Expression::Atom(key.clone()));
        items.push(value.clone());
    }
    let mut out = String::new();
    written(&Expression::List(items), &mut out);
    out
}

#[test]
fn read_from_tokens_reads_an_atom() {
    assert_eq!(read_from_tokens(&tokens(&["prot"])), Ok(atom("prot")));
}

#[test]
fn read_from_tokens_reads_an_empty_list() {
    assert_eq!(read_from_tokens(&tokens(&["(", ")"])), Ok(list(vec![])));
}

#[test]
fn read_from_tokens_reads_nested_lists() {
    assert_eq!(
        read_from_tokens(&tokens(&["(", "a", "(", "b", "(", ")", ")", "c", ")"])),
        Ok(list(vec![atom("a"), list(vec![atom("b"), list(vec![])]), atom("c")]))
    );
}

#[test]
fn read_from_tokens_passes_over_what_follows() {
    assert_eq!(read_from_tokens(&tokens(&["a", "b"])), Ok(atom("a")));
    assert_eq!(read_from_tokens(&tokens(&["(", "a", ")", ")", "("])), Ok(list(vec![atom("a")])));
}

#[test]
fn read_from_tokens_without_tokens_is_unexpected_eof() {
    assert_eq!(
        read_from_tokens(&tokens(&[])),
        Err(ParserError { kind: ParserErrorKind::UnexpectedEof })
    );
}

#[test]
fn read_from_tokens_unclosed_list_is_unexpected_eof() {
    assert_eq!(
        read_from_tokens(&tokens(&["(", "a", "(", "b", ")"])),
        Err(ParserError { kind: ParserErrorKind::UnexpectedEof })
    );
    assert_eq!(
        read_from_tokens(&tokens(&["("])),
        Err(ParserError { kind: ParserErrorKind::UnexpectedEof })
    );
}

#[test]
fn read_from_tokens_leading_close_is_invalid_structure() {
    assert_eq!(
        read_from_tokens(&tokens(&[")"])),
        Err(ParserError { kind: ParserErrorKind::InvalidStructure })
    );
    assert_eq!(
        read_from_tokens(&tokens(&[")", "(", "a", ")"])),
        Err(ParserError { kind: ParserErrorKind::InvalidStructure })
    );
}

#[test]
fn parse_cap_string_gives_entries_in_order() {
    let entries = parse_cap_string("(prot(monitor)type(lcd)model(X1))".to_string()).unwrap();
    assert_eq!(
        entries,
        vec![
            ("prot".to_string(), list(vec![atom("monitor")])),
            ("type".to_string(), list(vec![atom("lcd")])),
            ("model".to_string(), list(vec![atom("X1")])),
        ]
    );
}

#[test]
fn parse_cap_string_reads_the_example_of_the_wire_format() {
    let text = "(prot(monitor)type(lcd)model(X1)cmds(01 02 03)vcp(02 04 05 08 10 12 60(01 03 11)))";
    let entries = parse_cap_string(text.to_string()).unwrap();
    assert_eq!(entries.len(), 5);
    assert_eq!(entries[3], ("cmds".to_string(), list(vec![atom("01"), atom("02"), atom("03")])));
    assert_eq!(
        entries[4],
        (
            "vcp".to_string(),
            list(vec![
                atom("02"),
                atom("04"),
                atom("05"),
                atom("08"),
                atom("10"),
                atom("12"),
                atom("60"),
                list(vec![atom("01"), atom("03"), atom("11")]),
            ])
        )
    );
}

#[test]
fn parse_cap_string_keeps_entries_with_the_same_key() {
    let entries = parse_cap_string("(model(A) model(B))".to_string()).unwrap();
    assert_eq!(
        entries,
        vec![
            ("model".to_string(), list(vec![atom("A")])),
            ("model".to_string(), list(vec![atom("B")])),
        ]
    );
}

#[test]
fn parse_cap_string_takes_an_atom_as_a_value() {
    let entries = parse_cap_string("(prot monitor)".to_string()).unwrap();
    assert_eq!(entries, vec![("prot".to_string(), atom("monitor"))]);
}

#[test]
fn parse_cap_string_of_an_empty_list_has_no_entries() {
    assert_eq!(parse_cap_string("()".to_string()), Ok(vec![]));
}

#[test]
fn parse_cap_string_passes_over_text_behind_the_list() {
    assert_eq!(
        parse_cap_string("(prot(monitor)) and more )(".to_string()),
        Ok(vec![("prot".to_string(), list(vec![atom("monitor")]))])
    );
}

#[test]
fn unbalanced_input_is_unexpected_eof() {
    let err = parse_cap_string("(prot(monitor)".to_string()).unwrap_err();
    assert_eq!(err.kind, ParserErrorKind::UnexpectedEof);
    assert_eq!(err.message(), "unexpected eof");
}

#[test]
fn empty_input_is_unexpected_eof() {
    assert_eq!(parse_cap_string("".to_string()).unwrap_err().kind, ParserErrorKind::UnexpectedEof);
    assert_eq!(
        parse_cap_string("   ".to_string()).unwrap_err().kind,
        ParserErrorKind::UnexpectedEof
    );
}

#[test]
fn leading_close_is_invalid_structure() {
    let err = parse_cap_string(")prot(monitor)".to_string()).unwrap_err();
    assert_eq!(err.kind, ParserErrorKind::InvalidStructure);
    assert_eq!(err.message(), "invalid cap string");
}

#[test]
fn odd_top_level_list_is_malformed() {
    let err = parse_cap_string("(prot(monitor) type)".to_string()).unwrap_err();
    assert_eq!(err.kind, ParserErrorKind::MalformedTopLevel);
    assert_eq!(err.message(), "top level expr must be list");
}

#[test]
fn atom_at_top_level_is_malformed() {
    let err = parse_cap_string("prot".to_string()).unwrap_err();
    assert_eq!(err.kind, ParserErrorKind::MalformedTopLevel);
}

#[test]
fn list_in_place_of_a_key_is_key_not_atom() {
    let err = parse_cap_string("((prot) monitor)".to_string()).unwrap_err();
    assert_eq!(err.kind, ParserErrorKind::KeyNotAtom);
    assert_eq!(err.message(), "key isn't an atom");
    let err = parse_cap_string("(prot (monitor) (type) lcd)".to_string()).unwrap_err();
    assert_eq!(err.kind, ParserErrorKind::KeyNotAtom);
}

#[test]
fn pair_entries_pairs_keys_and_values() {
    assert_eq!(
        pair_entries(vec![atom("a"), list(vec![]), atom("b"), atom("c")]),
        Ok(vec![("a".to_string(), list(vec![])), ("b".to_string(), atom("c"))])
    );
    assert_eq!(pair_entries(vec![]), Ok(vec![]));
}

#[test]
fn pair_entries_last_key_without_value_is_dangling() {
    let err = pair_entries(vec![atom("a"), atom("b"), atom("c")]).unwrap_err();
    assert_eq!(err.kind, ParserErrorKind::DanglingKey);
    assert_eq!(err.message(), "key without value");
    assert_eq!(pair_entries(vec![atom("a")]).unwrap_err().kind, ParserErrorKind::DanglingKey);
}

#[test]
fn pair_entries_refuses_a_list_as_key_first() {
    assert_eq!(
        pair_entries(vec![atom("a"), atom("b"), list(vec![])]).unwrap_err().kind,
        ParserErrorKind::KeyNotAtom
    );
    assert_eq!(
        pair_entries(vec![list(vec![]), atom("b"), atom("c")]).unwrap_err().kind,
        ParserErrorKind::KeyNotAtom
    );
}

#[test]
fn parser_error_to_string_names_the_parser() {
    let err = ParserError::new(ParserErrorKind::UnexpectedEof);
    assert_eq!(err.to_string(), "Parser Error: unexpected eof");
    let err = ParserError::new(ParserErrorKind::KeyNotAtom);
    assert_eq!(err.to_string(), "Parser Error: key isn't an atom");
}

#[test]
fn written_entries_parse_back() {
    let texts = [
        "(prot(monitor)type(lcd)model(X1)cmds(01 02 03)vcp(02 04 05 08 10 12 60(01 03 11)))",
        "(  prot ( monitor )   unknown(a(b(c)))  model  X  )",
        "()",
        "(model(A)model(B)) trailing",
    ];
    for text in texts {
        let entries = parse_cap_string(text.to_string()).unwrap();
        let again = parse_cap_string(written_entries(&entries)).unwrap();
        assert_eq!(again, entries);
    }
}

#[test]
fn written_entries_keep_keys_and_shapes() {
    let entries = parse_cap_string("(prot(monitor) type lcd vcp(60(01)))".to_string()).unwrap();
    let again = parse_cap_string(written_entries(&entries)).unwrap();
    let keys: Vec<&str> = again.iter().map(|(k, _)| k.as_str()).collect();
    assert_eq!(keys, vec!["prot", "type", "vcp"]);
    assert!(matches!(again[0].1, Expression::List(_)));
    assert!(matches!(again[1].1, Expression::Atom(_)));
    assert!(matches!(again[2].1, Expression::List(_)));
}

#[test]
fn extract_atom_gives_the_first_atom_of_a_list() {
    assert_eq!(extract_atom(list(vec![atom("monitor")])), "monitor");
    assert_eq!(extract_atom(list(vec![atom("a"), atom("b")])), "a");
    assert_eq!(extract_atom(list(vec![atom("a"), list(vec![])])), "a");
}

#[test]
fn extract_atom_is_empty_for_other_values() {
    assert_eq!(extract_atom(atom("monitor")), "");
    assert_eq!(extract_atom(list(vec![])), "");
    assert_eq!(extract_atom(list(vec![list(vec![atom("a")]), atom("b")])), "");
}

#[test]
fn extract_vcp_commands_attaches_values_to_the_code_before_them() {
    let value = list(vec![atom("60"), list(vec![atom("01"), atom("03"), atom("11")])]);
    assert_eq!(extract_vcp_commands(value), vec![command("60", &["01", "03", "11"])]);
}

#[test]
fn extract_vcp_commands_keeps_the_order_of_the_codes() {
    let value = list(vec![
        atom("02"),
        atom("14"),
        list(vec![atom("05"), atom("08")]),
        atom("60"),
        list(vec![atom("0F"), atom("11")]),
        atom("AC"),
    ]);
    assert_eq!(
        extract_vcp_commands(value),
        vec![
            command("02", &[]),
            command("14", &["05", "08"]),
            command("60", &["0F", "11"]),
            command("AC", &[]),
        ]
    );
}

#[test]
fn extract_vcp_commands_passes_over_lists_without_a_code() {
    let value = list(vec![list(vec![atom("01")]), atom("10"), list(vec![]), list(vec![atom("02")])]);
    assert_eq!(extract_vcp_commands(value), vec![command("10", &[])]);
}

#[test]
fn extract_vcp_commands_passes_over_lists_among_the_values() {
    let value = list(vec![atom("60"), list(vec![atom("01"), list(vec![atom("02")]), atom("03")])]);
    assert_eq!(extract_vcp_commands(value), vec![command("60", &["01", "03"])]);
}

#[test]
fn extract_vcp_commands_of_an_atom_or_an_empty_list_is_empty() {
    assert_eq!(extract_vcp_commands(atom("60")), vec![]);
    assert_eq!(extract_vcp_commands(list(vec![])), vec![]);
}

#[test]
fn expression_clone_is_equal() {
    let e = list(vec![atom("a"), list(vec![atom("b"), list(vec![])])]);
    assert_eq!(e.clone(), e);
    let c = command("60", &["01", "03"]);
    assert_eq!(c.clone(), c);
    assert_eq!(VCPCommand::default(), leaf(""));
}
