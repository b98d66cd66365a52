use openrpc_typegen::naming::{
    replace_str, str_eq, to_pascal_case, to_sentence_case, to_starknet_rs_doc,
    to_starknet_rs_name, wrap_lines,
};

#[test]
fn pascal_case_basic() {
    assert_eq!(to_pascal_case("txn_hash"), "TxnHash");
    assert_eq!(to_pascal_case("FOO"), "Foo");
    assert_eq!(to_pascal_case("BLOCK_WITH_TXS"), "BlockWithTxs");
    assert_eq!(to_pascal_case(""), "");
    assert_eq!(to_pascal_case("_x"), "X");
    assert_eq!(to_pascal_case("a_b"), "AB");
}

#[test]
fn identifier_name_expands_txn() {
    assert_eq!(to_starknet_rs_name("txn_hash"), "TransactionHash");
}

#[test]
fn identifier_name_idempotent_on_normal_form() {
    let once = to_starknet_rs_name("pending_block");
    assert_eq!(once, "PendingBlock".to_string());
    // "PendingBlock" is not in normal form (capital B after position 0), so
    // idempotence is checked on a single-word identifier instead.
    let w = to_starknet_rs_name("Foobar");
    assert_eq!(w, "Foobar");
    assert_eq!(to_starknet_rs_name(&w), w);
}

#[test]
fn sentence_case_position_rule() {
    assert_eq!(
        to_sentence_case("starknet.io address. some text"),
        "Starknet.io address. Some text"
    );
}

#[test]
fn sentence_case_lowercases_rest() {
    assert_eq!(to_sentence_case("THE BLOCK. AND MORE"), "The block. And more");
    assert_eq!(to_sentence_case(""), "");
    assert_eq!(to_sentence_case(". x"), ". X");
}

#[test]
fn doc_transform_brand_and_period() {
    assert_eq!(
        to_starknet_rs_doc("starknet.io address. some text", true),
        "starknet.io address. Some text."
    );
    assert_eq!(to_starknet_rs_doc("the starknet chain id", true), "The StarkNet chain id.");
    assert_eq!(to_starknet_rs_doc("already ends.", true), "Already ends.");
    assert_eq!(to_starknet_rs_doc("no period", false), "No period");
}

#[test]
fn replace_non_overlapping() {
    assert_eq!(replace_str("aaa", "aa", "b"), "ba");
    assert_eq!(replace_str("TxnTxn", "Txn", "Transaction"), "TransactionTransaction");
    assert_eq!(replace_str("none here", "xyz", "q"), "none here");
}

#[test]
fn str_eq_matches() {
    assert!(str_eq("abc", "abc"));
    assert!(!str_eq("abc", "abd"));
    assert!(!str_eq("abc", "ab"));
    assert!(str_eq("", ""));
}

#[test]
fn wrap_empty_input_gives_one_empty_line() {
    let lines = wrap_lines("", 8);
    assert_eq!(lines, vec!["".to_string()]);
}

#[test]
fn wrap_respects_width() {
    let text = "one two three four five six seven eight nine ten eleven twelve thirteen \
                fourteen fifteen sixteen seventeen eighteen nineteen twenty";
    let prefix = 8;
    let lines = wrap_lines(text, prefix);
    assert!(lines.len() > 1);
    for line in &lines {
        assert!(prefix + line.len() <= 100 || !line.contains(' '));
    }
    // No word is split: rejoining the lines restores the input text.
    assert_eq!(lines.join(" "), text);
}

#[test]
fn wrap_keeps_overlong_word_whole() {
    let word = "w".repeat(120);
    let lines = wrap_lines(&word, 4);
    // The overflowing first word flushes the (empty) current line first.
    assert_eq!(lines.len(), 2);
    assert_eq!(lines[0], "");
    assert_eq!(lines[1], word);
}

#[test]
fn wrap_exact_boundary() {
    // With a prefix of 96, two-letter words fill exactly one line each.
    let lines = wrap_lines("aa bb cc", 96);
    assert_eq!(lines, vec!["aa".to_string(), "bb".to_string(), "cc".to_string()]);
}
