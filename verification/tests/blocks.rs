use blockchain::block::frame_block;
use blockchain::digest;
use blockchain::{Block, Timestamp, Transaction};

fn seed_hash() -> digest::Hash {
    digest::Hash::new(b"first")
}

fn first_block() -> Block {
    Block::new(1, Timestamp::new(1_540_000_000, 123_456_789).unwrap(), 100, seed_hash(), vec![])
}

fn second_block() -> Block {
    Block::new(
        2,
        Timestamp::new(1_540_000_001, 0).unwrap(),
        8387,
        first_block().hash(),
        vec![
            Transaction::new("alice", "bob", 1.5f64.to_bits()),
            Transaction::new("0", "node", 1.0f64.to_bits()),
        ],
    )
}

const FIRST_TEXT: &str = "{\"index\":1,\"timestamp\":1540000000.123456789,\"proof\":100,\
    \"previous_hash\":\"a7937b64b8caa58f03721bb6bacf5c78cb235febe0e70b1b84cd99541461a08e\",\
    \"transactions\":[]}";

const SECOND_TEXT: &str = "{\"index\":2,\"timestamp\":1540000001.000000000,\"proof\":8387,\
    \"previous_hash\":\"d7b5b683c12ae701ba34d78f358bb76e89e56d7ba4d351db910c790a99096bf0\",\
    \"transactions\":[{\"sender\":\"alice\",\"recipient\":\"bob\",\"amount\":4609434218613702656},\
    {\"sender\":\"0\",\"recipient\":\"node\",\"amount\":4607182418800017408}]}";

#[test]
fn block_holds_what_it_was_made_of() {
    let block = second_block();
    assert_eq!(block.index, 2);
    assert_eq!(block.timestamp, Timestamp::new(1_540_000_001, 0).unwrap());
    assert_eq!(block.proof, 8387);
    assert_eq!(block.previous_hash, first_block().hash());
    assert_eq!(block.transactions.len(), 2);
    assert_eq!(block.transactions[0], Transaction::new("alice", "bob", 1.5f64.to_bits()));
    assert_eq!(block.transactions[1], Transaction::new("0", "node", 1.0f64.to_bits()));
}

#[test]
fn block_text_has_the_five_keys_in_order() {
    assert_eq!(String::from_utf8(first_block().encode()).unwrap(), FIRST_TEXT);
    assert_eq!(String::from_utf8(second_block().encode()).unwrap(), SECOND_TEXT);
}

#[test]
fn block_hash_is_the_digest_of_its_text() {
    assert_eq!(
        first_block().hash().to_hex(),
        "d7b5b683c12ae701ba34d78f358bb76e89e56d7ba4d351db910c790a99096bf0"
    );
    assert_eq!(
        second_block().hash().to_hex(),
        "c8fd577f21ef2793e02e22212e7f9df5517605f10afb521a2fa20ded87db666c"
    );
    assert_eq!(first_block().hash(), digest::Hash::new(FIRST_TEXT.as_bytes()));
}

#[test]
fn checked_hash_agrees_with_hash() {
    assert_eq!(first_block().checked_hash(), Some(first_block().hash()));
    assert_eq!(second_block().checked_hash(), Some(second_block().hash()));
}

#[test]
fn hashing_twice_gives_the_same_bytes() {
    let block = second_block();
    assert_eq!(block.hash().digest, block.hash().digest);
    assert_eq!(block.encode(), block.encode());
}

#[test]
fn blocks_with_the_same_content_hash_alike() {
    let one = second_block();
    let other = second_block();
    assert_eq!(one, other);
    assert_eq!(one.hash(), other.hash());
    assert_eq!(one.clone().hash(), one.hash());
}

#[test]
fn changing_any_one_field_changes_the_hash() {
    let base = second_block();
    let hash = base.hash();

    let mut changed = base.clone();
    changed.index = 3;
    assert_ne!(changed.hash(), hash);

    let mut changed = base.clone();
    changed.timestamp = Timestamp::new(1_540_000_001, 1).unwrap();
    assert_ne!(changed.hash(), hash);

    let mut changed = base.clone();
    changed.timestamp = Timestamp::new(1_540_000_002, 0).unwrap();
    assert_ne!(changed.hash(), hash);

    let mut changed = base.clone();
    changed.proof = 8388;
    assert_ne!(changed.hash(), hash);

    let mut changed = base.clone();
    changed.previous_hash.digest[31] ^= 1;
    assert_ne!(changed.hash(), hash);

    let mut changed = base.clone();
    changed.transactions.pop();
    assert_ne!(changed.hash(), hash);

    let mut changed = base.clone();
    changed.transactions.swap(0, 1);
    assert_ne!(changed.hash(), hash);

    let mut changed = base.clone();
    changed.transactions[0] = Transaction::new("alice", "bob", 1.25f64.to_bits());
    assert_ne!(changed.hash(), hash);

    let mut changed = base.clone();
    changed.transactions[0] = Transaction::new("alice", "bo", 1.5f64.to_bits());
    assert_ne!(changed.hash(), hash);

    let mut changed = base.clone();
    changed.transactions[0] = Transaction::new("Alice", "bob", 1.5f64.to_bits());
    assert_ne!(changed.hash(), hash);
}

#[test]
fn frame_takes_the_transaction_list_as_it_is_given() {
    let timestamp = Timestamp::new(3, 4).unwrap();
    let previous = digest::Hash { digest: [0xab; 32] };
    let text = frame_block(7, &timestamp, 9, &previous, b"<list>");
    assert_eq!(
        String::from_utf8(text).unwrap(),
        format!(
            "{{\"index\":7,\"timestamp\":3.000000004,\"proof\":9,\"previous_hash\":\"{}\",\
             \"transactions\":[<list>]}}",
            "ab".repeat(32)
        )
    );
}
