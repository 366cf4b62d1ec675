use blockchain::transaction::{encode_all_into, frame_transaction};
use blockchain::Transaction;

fn text(bytes: Vec<u8>) -> String {
    String::from_utf8(bytes).unwrap()
}

#[test]
fn transaction_gives_back_what_it_was_made_of() {
    let transaction = Transaction::new("alice", "bob", 1.5f64.to_bits());
    assert_eq!(transaction.sender(), "alice");
    assert_eq!(transaction.recipient(), "bob");
    assert_eq!(transaction.amount_bits(), 4609434218613702656);
    assert_eq!(f64::from_bits(transaction.amount_bits()), 1.5);
}

#[test]
fn transaction_content_is_not_checked() {
    let empty = Transaction::new("", "", 0.0f64.to_bits());
    assert_eq!(empty.sender(), "");
    assert_eq!(empty.recipient(), "");
    assert_eq!(f64::from_bits(empty.amount_bits()), 0.0);
    let negative = Transaction::new("a", "a", (-2.25f64).to_bits());
    assert_eq!(negative.amount_bits(), 13835621005235585024);
    assert_eq!(f64::from_bits(negative.amount_bits()), -2.25);
}

#[test]
fn transaction_text_names_sender_recipient_and_amount() {
    let transaction = Transaction::new("alice", "bob", 1.5f64.to_bits());
    assert_eq!(
        text(transaction.encode()),
        "{\"sender\":\"alice\",\"recipient\":\"bob\",\"amount\":4609434218613702656}"
    );
}

#[test]
fn transaction_text_escapes_its_strings() {
    let transaction = Transaction::new("say \"hi\"\\\n\t\u{1}", "café €", 0);
    assert_eq!(
        text(transaction.encode()),
        "{\"sender\":\"say \\\"hi\\\"\\\\\\n\\t\\u0001\",\"recipient\":\"café €\",\"amount\":0}"
    );
}

#[test]
fn transaction_text_is_appended() {
    let mut out = vec![b'['];
    Transaction::new("0", "node", 1.0f64.to_bits()).encode_into(&mut out);
    assert_eq!(
        text(out),
        "[{\"sender\":\"0\",\"recipient\":\"node\",\"amount\":4607182418800017408}"
    );
}

#[test]
fn frame_takes_strings_as_they_are_given() {
    let mut out = Vec::new();
    frame_transaction(&mut out, b"\"a\"", b"\"b\"", 12);
    assert_eq!(text(out), "{\"sender\":\"a\",\"recipient\":\"b\",\"amount\":12}");
    let mut out = Vec::new();
    frame_transaction(&mut out, b"", b"x", u64::MAX);
    assert_eq!(text(out), "{\"sender\":,\"recipient\":x,\"amount\":18446744073709551615}");
}

#[test]
fn transactions_are_listed_with_commas_between() {
    let mut out = Vec::new();
    encode_all_into(&[], &mut out);
    assert_eq!(text(out), "");

    let one = vec![Transaction::new("a", "b", 1)];
    let mut out = Vec::new();
    encode_all_into(&one, &mut out);
    assert_eq!(text(out), "{\"sender\":\"a\",\"recipient\":\"b\",\"amount\":1}");

    let three = vec![
        Transaction::new("a", "b", 1),
        Transaction::new("c", "d", 2),
        Transaction::new("a", "b", 1),
    ];
    let mut out = vec![b'['];
    encode_all_into(&three, &mut out);
    assert_eq!(
        text(out),
        "[{\"sender\":\"a\",\"recipient\":\"b\",\"amount\":1},\
         {\"sender\":\"c\",\"recipient\":\"d\",\"amount\":2},\
         {\"sender\":\"a\",\"recipient\":\"b\",\"amount\":1}"
    );
}

#[test]
fn transactions_compare_by_content() {
    assert_eq!(Transaction::new("a", "b", 1), Transaction::new("a", "b", 1));
    assert_ne!(Transaction::new("a", "b", 1), Transaction::new("a", "b", 2));
    assert_ne!(Transaction::new("a", "b", 1), Transaction::new("b", "a", 1));
}
