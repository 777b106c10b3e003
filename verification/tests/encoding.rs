use powledger::digest::sha256_hex;
use powledger::text::digit_str;
use powledger::text::push_decimal;
use powledger::text::to_hex;
use powledger::transaction::push_transaction_text;
use powledger::transaction::push_transactions;
use powledger::Transaction;

#[derive(Debug)]
struct Record {
    sender: String,
    recipient: String,
    amount: u32,
}

fn decimal_of(n: u64) -> String {
    let mut out = String::new();
    push_decimal(&mut out, n);
    out
}

fn rendered(txs: &Vec<Transaction>) -> String {
    let mut out = String::new();
    push_transactions(&mut out, txs);
    out
}

fn tx(sender: &str, recipient: &str, amount: u32) -> Transaction {
    Transaction::new(sender.to_string(), recipient.to_string(), amount)
}

#[test]
fn digit_strings_cover_sixteen_values() {
    let mut all = String::new();
    for n in 0..16u8 {
        all.push_str(digit_str(n));
    }
    assert_eq!(all, "0123456789abcdef");
}

#[test]
fn decimal_of_small_and_large_numbers() {
    assert_eq!(decimal_of(0), "0");
    assert_eq!(decimal_of(7), "7");
    assert_eq!(decimal_of(10), "10");
    assert_eq!(decimal_of(1700000000), "1700000000");
    assert_eq!(decimal_of(4294967295), "4294967295");
    assert_eq!(decimal_of(u64::MAX), "18446744073709551615");
}

#[test]
fn decimal_appends_to_existing_text() {
    let mut out = String::from("n=");
    push_decimal(&mut out, 120);
    assert_eq!(out, "n=120");
}

#[test]
fn hex_of_bytes() {
    assert_eq!(to_hex(&[]), "");
    assert_eq!(to_hex(&[0x00]), "00");
    assert_eq!(to_hex(&[0x0a, 0x14, 0x1e]), "0a141e");
    assert_eq!(to_hex(&[0xff, 0x10, 0x01, 0xab]), "ff1001ab");
}

#[test]
fn hex_matches_every_byte_value() {
    for b in 0..=255u8 {
        assert_eq!(to_hex(&[b]), format!("{:02x}", b));
    }
}

#[test]
fn sha256_of_known_inputs() {
    assert_eq!(
        sha256_hex(b"hello world"),
        "b94d27b9934d3e08a52e52d7da7dabfac484efe37a5380ee9088f7ace2efcde9"
    );
    assert_eq!(
        sha256_hex(b""),
        "e3b0c44298fc1c149afbf4c8996fb92427ae41e4649b934ca495991b7852b855"
    );
}

#[test]
fn sha256_hex_is_64_lowercase_hex_characters() {
    let h = sha256_hex(b"any input at all");
    assert_eq!(h.len(), 64);
    assert!(h.chars().all(|c| matches!(c, '0'..='9' | 'a'..='f')));
}

#[test]
fn empty_transaction_list_renders_as_brackets() {
    assert_eq!(rendered(&vec![]), "[]");
}

#[test]
fn one_transaction_renders_with_quoted_names() {
    assert_eq!(
        rendered(&vec![tx("Purvesh", "Jenish", 50)]),
        "[Transaction { sender: \"Purvesh\", recipient: \"Jenish\", amount: 50 }]"
    );
}

#[test]
fn several_transactions_are_separated_by_comma_and_space() {
    assert_eq!(
        rendered(&vec![tx("a", "b", 1), tx("c", "d", 4294967295), tx("", "", 0)]),
        "[Transaction { sender: \"a\", recipient: \"b\", amount: 1 }, \
         Transaction { sender: \"c\", recipient: \"d\", amount: 4294967295 }, \
         Transaction { sender: \"\", recipient: \"\", amount: 0 }]"
    );
}

#[test]
fn names_are_escaped_as_debug_formatting_does() {
    let names = [
        ("plain", "also plain"),
        ("with \"quotes\"", "back\\slash"),
        ("line\nbreak", "tab\there"),
        ("caf\u{e9}", "\u{1f600} \u{0} \u{7f}"),
        ("it's", "\u{301}combining"),
    ];
    for (sender, recipient) in names {
        let expected = format!(
            "[{:?}]",
            Record { sender: sender.to_string(), recipient: recipient.to_string(), amount: 9 }
        )
        .replace("Record", "Transaction");
        assert_eq!(rendered(&vec![tx(sender, recipient, 9)]), expected);
    }
}

#[test]
fn transaction_text_uses_the_names_as_given() {
    let mut out = String::from(">");
    push_transaction_text(&mut out, "<s>", "<r>", 12);
    assert_eq!(out, ">Transaction { sender: <s>, recipient: <r>, amount: 12 }");
}

#[test]
fn transaction_push_text_appends() {
    let mut out = String::from("x");
    tx("A", "B", 3).push_text(&mut out);
    assert_eq!(out, "xTransaction { sender: \"A\", recipient: \"B\", amount: 3 }");
}

#[test]
fn transactions_compare_by_their_fields() {
    assert_eq!(tx("a", "b", 1), tx("a", "b", 1));
    assert_ne!(tx("a", "b", 1), tx("a", "b", 2));
    assert_ne!(tx("a", "b", 1), tx("a", "c", 1));
    assert_ne!(tx("a", "b", 1), tx("x", "b", 1));
}
