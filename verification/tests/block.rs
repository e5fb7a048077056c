use ord::block::{BlockHtml, NavLink};
use ord::types::{Block, BlockHash, Header, Height, InscriptionId, Txid};

fn hexval(c: u8) -> u8 {
    match c {
        b'0'..=b'9' => c - b'0',
        b'a'..=b'f' => c - b'a' + 10,
        _ => panic!("not a hex digit"),
    }
}

fn hex_to_bytes(s: &str) -> Vec<u8> {
    let b = s.as_bytes();
    let mut out: Vec<u8> = Vec::new();
    let mut i: usize = 0;
    while i < b.len() {
        out.push(hexval(b[i]) * 16 + hexval(b[i + 1]));
        i += 2;
    }
    out
}

fn genesis_block() -> Block {
    let mut merkle = hex_to_bytes("4a5e1e4baab89f3a32518a88c31bc87f618f76673e2cc77ab2127b7afdeda33b");
    merkle.reverse();
    Block {
        header: Header {
            version: 1,
            prev_blockhash: BlockHash(vec![0u8; 32]),
            merkle_root: BlockHash(merkle.clone()),
            time: 1231006505,
            bits: 0x1d00ffff,
            nonce: 2083236893,
        },
        txdata: vec![Txid(merkle)],
        size: 285,
        weight: 1140,
    }
}

fn inscription_id(n: u8) -> InscriptionId {
    InscriptionId {
        txid: Txid(vec![n * 0x11; 32]),
        index: n as u32,
    }
}

fn assert_regex_match(string: &str, pattern: &str) {
    let regex = regex::Regex::new(&format!("^(?s){}$", pattern)).unwrap();
    if !regex.is_match(string) {
        panic!(
            "Regex:\n\n{}\n\n...did not match string:\n\n{}",
            pattern, string
        );
    }
}

#[test]
fn html() {
    let view = BlockHtml::new(
        genesis_block(),
        Height(0),
        Height(0),
        vec![inscription_id(1), inscription_id(2)],
    );
    assert_regex_match(
        &view.html(),
        "<h1>Block 0</h1>
<dl>
  <dt>hash</dt><dd class=monospace>[[:xdigit:]]{64}</dd>
  <dt>target</dt><dd class=monospace>[[:xdigit:]]{64}</dd>
  <dt>timestamp</dt><dd><time>2009-01-03 18:15:05 UTC</time></dd>
  <dt>size</dt><dd>285</dd>
  <dt>weight</dt><dd>1140</dd>
</dl>
.*
prev
next
.*
<h2>2 Inscriptions</h2>
<div class=thumbnails>
  <a href=/inscription/1{64}i1><iframe .* src=/preview/1{64}i1></iframe></a>
  <a href=/inscription/2{64}i2><iframe .* src=/preview/2{64}i2></iframe></a>
</div>
<h2>1 Transaction</h2>
<ul class=monospace>
  <li><a href=/tx/[[:xdigit:]]{64}>[[:xdigit:]]{64}</a></li>
</ul>
",
    );
}

#[test]
fn next_active_when_not_last() {
    let view = BlockHtml::new(genesis_block(), Height(0), Height(1), vec![]);
    assert_regex_match(
        &view.html(),
        r"<h1>Block 0</h1>.*prev\s*<a class=next href=/block/1>next</a>.*",
    );
}

#[test]
fn prev_active_when_not_first() {
    let view = BlockHtml::new(genesis_block(), Height(1), Height(1), vec![]);
    assert_regex_match(
        &view.html(),
        r"<h1>Block 1</h1>.*<a class=prev href=/block/0>prev</a>\s*next.*",
    );
}

#[test]
fn genesis_hash_is_derived_from_the_header() {
    let view = BlockHtml::new(genesis_block(), Height(0), Height(0), vec![]);
    assert_eq!(
        view.hash_hex(),
        "000000000019d6689c085ae165831e934ff763ae46a2a6c172b3f1b60a8ce26f"
    );
}

#[test]
fn genesis_target_expansion() {
    let view = BlockHtml::new(genesis_block(), Height(0), Height(0), vec![]);
    assert_eq!(
        view.target_hex(),
        "0000000000000000000000000000000000000000000000000000ffff00000000"
    );
}

#[test]
fn hash_and_target_are_64_hex_digits() {
    let view = BlockHtml::new(genesis_block(), Height(0), Height(0), vec![]);
    for s in [view.hash_hex(), view.target_hex()] {
        assert_eq!(s.len(), 64);
        assert!(s.bytes().all(|c| c.is_ascii_hexdigit()));
    }
}

#[test]
fn title_shows_height() {
    let view = BlockHtml::new(genesis_block(), Height(0), Height(0), vec![]);
    assert_eq!(view.title(), "Block 0");
    let view = BlockHtml::new(genesis_block(), Height(4294967295), Height(4294967295), vec![]);
    assert_eq!(view.title(), "Block 4294967295");
}

#[test]
fn prev_inactive_at_genesis() {
    let view = BlockHtml::new(genesis_block(), Height(0), Height(5), vec![]);
    assert_eq!(view.prev_nav(), NavLink::Inactive);
}

#[test]
fn prev_active_targets_previous_height() {
    let view = BlockHtml::new(genesis_block(), Height(7), Height(9), vec![]);
    assert_eq!(view.prev_nav(), NavLink::Active(Height(6)));
}

#[test]
fn next_active_targets_following_height() {
    let view = BlockHtml::new(genesis_block(), Height(7), Height(9), vec![]);
    assert_eq!(view.next_nav(), NavLink::Active(Height(8)));
}

#[test]
fn next_inactive_at_tip() {
    let view = BlockHtml::new(genesis_block(), Height(9), Height(9), vec![]);
    assert_eq!(view.next_nav(), NavLink::Inactive);
    let view = BlockHtml::new(genesis_block(), Height(0), Height(0), vec![]);
    assert_eq!(view.next_nav(), NavLink::Inactive);
}

#[test]
fn inscription_section_absent_when_list_empty() {
    let view = BlockHtml::new(genesis_block(), Height(0), Height(1), vec![]);
    assert!(!view.html().contains("Inscription"));
}

#[test]
fn inscription_section_counts_and_keeps_order() {
    let view = BlockHtml::new(
        genesis_block(),
        Height(0),
        Height(0),
        vec![inscription_id(3), inscription_id(1), inscription_id(2)],
    );
    let html = view.html();
    assert!(html.contains("<h2>3 Inscriptions</h2>"));
    let p3 = html.find("/inscription/333").unwrap();
    let p1 = html.find("/inscription/111").unwrap();
    let p2 = html.find("/inscription/222").unwrap();
    assert!(p3 < p1 && p1 < p2);
}

#[test]
fn single_inscription_heading_is_singular() {
    let view = BlockHtml::new(genesis_block(), Height(0), Height(0), vec![inscription_id(1)]);
    assert!(view.html().contains("<h2>1 Inscription</h2>"));
}

#[test]
fn transaction_section_renders_zero_count() {
    let mut block = genesis_block();
    block.txdata = vec![];
    let view = BlockHtml::new(block, Height(0), Height(0), vec![]);
    let html = view.html();
    assert!(html.contains("<h2>0 Transactions</h2>"));
    assert!(!html.contains("<li>"));
}

#[test]
fn transaction_section_lists_each_transaction_in_order() {
    let mut block = genesis_block();
    block.txdata = vec![Txid(vec![0xab; 32]), Txid(vec![0xcd; 32])];
    let view = BlockHtml::new(block, Height(0), Height(0), vec![]);
    let html = view.html();
    assert!(html.contains("<h2>2 Transactions</h2>"));
    let pa = html.find(&"ab".repeat(32)).unwrap();
    let pc = html.find(&"cd".repeat(32)).unwrap();
    assert!(pa < pc);
}

#[test]
fn timestamp_epoch() {
    let mut block = genesis_block();
    block.header.time = 0;
    let view = BlockHtml::new(block, Height(0), Height(0), vec![]);
    assert!(view.html().contains("<time>1970-01-01 00:00:00 UTC</time>"));
}

#[test]
fn timestamp_leap_day() {
    let mut block = genesis_block();
    block.header.time = 1456704000;
    let view = BlockHtml::new(block, Height(0), Height(0), vec![]);
    assert!(view.html().contains("<time>2016-02-29 00:00:00 UTC</time>"));
}

#[test]
fn timestamp_century_year_is_not_leap() {
    let mut block = genesis_block();
    block.header.time = 4107542400;
    let view = BlockHtml::new(block, Height(0), Height(0), vec![]);
    assert!(view.html().contains("<time>2100-03-01 00:00:00 UTC</time>"));
}

#[test]
fn low_exponent_target_expansion() {
    let mut block = genesis_block();
    block.header.bits = 0x017fff00;
    let view = BlockHtml::new(block, Height(0), Height(0), vec![]);
    assert_eq!(
        view.target_hex(),
        "7f00000000000000000000000000000000000000000000000000000000000000"
    );
}

#[test]
fn sign_bit_mantissa_expands_to_zero() {
    let mut block = genesis_block();
    block.header.bits = 0x04800000;
    let view = BlockHtml::new(block, Height(0), Height(0), vec![]);
    assert_eq!(view.target_hex(), "0".repeat(64));
}
