use monitor_control::mccs::{clean_input, tokenize};
use monitor_control::text::same_text;

fn strings(items: &[&str]) -> Vec<String> {
    items.iter().map(|s| s.to_string()).collect()
}

#[test]
fn clean_input_pads_parentheses() {
    assert_eq!(clean_input("(a)".to_string()), " ( a ) ");
    assert_eq!(clean_input("a(b)".to_string()), "a ( b ) ");
}

#[test]
fn clean_input_leaves_plain_text() {
    assert_eq!(clean_input("".to_string()), "");
    assert_eq!(clean_input("prot".to_string()), "prot");
    assert_eq!(clean_input("a b".to_string()), "a b");
}

#[test]
fn clean_input_collapses_runs_of_spaces() {
    assert_eq!(clean_input("a  b".to_string()), "a b");
    assert_eq!(clean_input("a   b".to_string()), "a b");
    assert_eq!(clean_input("a    b     c".to_string()), "a b c");
    assert_eq!(clean_input("  ".to_string()), " ");
    assert_eq!(clean_input(" ".to_string()), " ");
    assert_eq!(clean_input("   a   ".to_string()), " a ");
}

#[test]
fn clean_input_collapses_after_padding() {
    // Padded: " (  ( a )  ) ", then every run of spaces becomes one space.
    assert_eq!(clean_input("((a))".to_string()), " ( ( a ) ) ");
    assert_eq!(clean_input("( )".to_string()), " ( ) ");
    assert_eq!(clean_input("prot (monitor) type (lcd)".to_string()), "prot ( monitor ) type ( lcd ) ");
}

#[test]
fn clean_input_on_a_capability_string() {
    assert_eq!(
        clean_input("(prot(monitor)type(lcd))".to_string()),
        " ( prot ( monitor ) type ( lcd ) ) "
    );
}

#[test]
fn clean_input_keeps_other_whitespace_and_letters() {
    assert_eq!(clean_input("a\tb\n".to_string()), "a\tb\n");
    assert_eq!(clean_input("é(ü)".to_string()), "é ( ü ) ");
}

#[test]
fn tokenize_splits_at_spaces() {
    assert_eq!(tokenize("a b"), strings(&["a", "b"]));
    assert_eq!(tokenize(" ( a ) "), strings(&["(", "a", ")"]));
}

#[test]
fn tokenize_drops_empty_pieces() {
    assert_eq!(tokenize(""), Vec::<String>::new());
    assert_eq!(tokenize("   "), Vec::<String>::new());
    assert_eq!(tokenize("  a   b  "), strings(&["a", "b"]));
}

#[test]
fn tokenize_splits_at_spaces_only() {
    assert_eq!(tokenize("a\tb c"), strings(&["a\tb", "c"]));
    assert_eq!(tokenize("(a)"), strings(&["(a)"]));
}

#[test]
fn tokenize_keeps_the_order_of_the_text() {
    assert_eq!(
        tokenize(&clean_input("(vcp(02 60(01 03)))".to_string())),
        strings(&["(", "vcp", "(", "02", "60", "(", "01", "03", ")", ")", ")"])
    );
}

#[test]
fn tokenize_copies_every_letter() {
    assert_eq!(tokenize("model déjà-vu"), strings(&["model", "déjà-vu"]));
}

#[test]
fn same_text_compares_letter_for_letter() {
    assert!(same_text("60", "60"));
    assert!(same_text("", ""));
    assert!(!same_text("60", "61"));
    assert!(!same_text("0f", "0F"));
    assert!(!same_text("60", "600"));
    assert!(!same_text("é", "e"));
}
