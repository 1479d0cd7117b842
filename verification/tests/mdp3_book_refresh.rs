use cme_md_connector::mdp3::book_refresh::{
    IncrementalRefresh, MdEntry, INCREMENTAL_ROOT_BLOCK_LEN, MD_ENTRY_BLOCK_LEN,
    TEMPLATE_INCREMENTAL_BOOK_32, TEMPLATE_INCREMENTAL_BOOK_46,
};
use cme_md_connector::mdp3::enums::{MdEntryType, MdUpdateAction};
use cme_md_connector::mdp3::header::{messages, SbeHeader, CME_SCHEMA_ID, SBE_HEADER_LEN};
use cme_md_connector::mdp3::packet::PacketHeader;

fn entry_bytes(e: &MdEntry) -> Vec<u8> {
    let mut b = Vec::with_capacity(MD_ENTRY_BLOCK_LEN as usize);
    b.extend_from_slice(&e.px_raw.to_le_bytes());
    b.extend_from_slice(&e.size.to_le_bytes());
    b.extend_from_slice(&e.security_id.to_le_bytes());
    b.extend_from_slice(&e.rpt_seq.to_le_bytes());
    b.extend_from_slice(&e.num_orders.to_le_bytes());
    b.push(e.price_level);
    b.push(e.update_action.as_u8());
    b.push(e.entry_type.as_byte());
    b.resize(MD_ENTRY_BLOCK_LEN as usize, 0); // 5 pad bytes
    b
}

/// Build the message body (root + group) for an incremental refresh.
fn refresh_body(transact_time: u64, match_event: u8, entries: &[MdEntry]) -> Vec<u8> {
    let mut body = Vec::new();
    body.extend_from_slice(&transact_time.to_le_bytes());
    body.push(match_event);
    body.extend_from_slice(&[0u8; 2]); // pad to blockLength 11
    body.extend_from_slice(&MD_ENTRY_BLOCK_LEN.to_le_bytes());
    body.push(entries.len() as u8);
    for e in entries {
        body.extend_from_slice(&entry_bytes(e));
    }
    body
}

fn frame(template_id: u16, body: &[u8]) -> Vec<u8> {
    let mut out = Vec::new();
    let size = (SBE_HEADER_LEN + body.len()) as u16;
    out.extend_from_slice(&size.to_le_bytes());
    out.extend_from_slice(&INCREMENTAL_ROOT_BLOCK_LEN.to_le_bytes());
    out.extend_from_slice(&template_id.to_le_bytes());
    out.extend_from_slice(&CME_SCHEMA_ID.to_le_bytes());
    out.extend_from_slice(&0u16.to_le_bytes());
    out.extend_from_slice(body);
    out
}

fn sample_entries() -> Vec<MdEntry> {
    vec![
        MdEntry {
            security_id: 42,
            rpt_seq: 100,
            px_raw: 5_000_250_000_000, // 5000.25 in PRICE9
            size: 7,
            num_orders: 3,
            price_level: 1,
            update_action: MdUpdateAction::New,
            entry_type: MdEntryType::Bid,
        },
        MdEntry {
            security_id: 42,
            rpt_seq: 101,
            px_raw: 5_000_500_000_000, // 5000.50
            size: 4,
            num_orders: 2,
            price_level: 1,
            update_action: MdUpdateAction::Change,
            entry_type: MdEntryType::Offer,
        },
    ]
}

fn book_header() -> SbeHeader {
    SbeHeader::new(
        INCREMENTAL_ROOT_BLOCK_LEN,
        TEMPLATE_INCREMENTAL_BOOK_46,
        CME_SCHEMA_ID,
        0,
    )
}

fn collect(refresh: &IncrementalRefresh<'_>) -> Vec<MdEntry> {
    let mut it = refresh.entries();
    let mut out = Vec::new();
    while let Some(e) = it.next() {
        out.push(e);
    }
    out
}

#[test]
fn decodes_root_and_all_entries() {
    let entries = sample_entries();
    let body = refresh_body(1_700_000_000_000_000_000, 0x80, &entries);

    let hdr = book_header();
    let refresh = IncrementalRefresh::decode(&hdr, &body).expect("decode");

    assert_eq!(refresh.transact_time(), 1_700_000_000_000_000_000);
    assert!(refresh.match_event().is_end_of_event());

    assert_eq!(collect(&refresh), entries);
}

#[test]
fn decodes_through_full_packet_framing() {
    let entries = sample_entries();
    let body = refresh_body(123, 0x80, &entries);
    let mut packet = Vec::new();
    packet.extend_from_slice(&9u32.to_le_bytes()); // seq
    packet.extend_from_slice(&456u64.to_le_bytes()); // sending time
    packet.extend(frame(TEMPLATE_INCREMENTAL_BOOK_46, &body));

    let (ph, msg_bytes) = PacketHeader::parse(&packet).unwrap();
    assert_eq!(ph.seq_num(), 9);

    let mut total = 0usize;
    let mut it = messages(msg_bytes);
    while let Some(m) = it.next() {
        let r = IncrementalRefresh::decode(&m.header, m.body).expect("decode");
        total += collect(&r).len();
    }
    assert_eq!(total, 2);
}

#[test]
fn skips_entries_with_unknown_action_or_type() {
    // One valid entry, one with a bogus update action byte (9).
    let valid = sample_entries()[0];
    let mut body = Vec::new();
    body.extend_from_slice(&0u64.to_le_bytes());
    body.push(0x80);
    body.extend_from_slice(&[0u8; 2]);
    body.extend_from_slice(&MD_ENTRY_BLOCK_LEN.to_le_bytes());
    body.push(2);
    body.extend_from_slice(&entry_bytes(&valid));
    let mut bogus = entry_bytes(&valid);
    bogus[25] = 9; // invalid MDUpdateAction
    body.extend_from_slice(&bogus);

    let hdr = book_header();
    let refresh = IncrementalRefresh::decode(&hdr, &body).unwrap();
    assert_eq!(collect(&refresh), vec![valid]);
}

#[test]
fn skips_an_unknown_entry_and_reads_the_one_after_it() {
    let entries = sample_entries();
    let mut body = refresh_body(0, 0, &entries);
    body[14 + 26] = b'Z'; // unknown MDEntryType in the first block
    let hdr = book_header();
    let refresh = IncrementalRefresh::decode(&hdr, &body).unwrap();
    assert_eq!(collect(&refresh), vec![entries[1]]);
}

#[test]
fn rejects_truncated_group() {
    // numInGroup says 2 but only 1 entry of bytes follows.
    let valid = sample_entries()[0];
    let mut body = Vec::new();
    body.extend_from_slice(&0u64.to_le_bytes());
    body.push(0x80);
    body.extend_from_slice(&[0u8; 2]);
    body.extend_from_slice(&MD_ENTRY_BLOCK_LEN.to_le_bytes());
    body.push(2);
    body.extend_from_slice(&entry_bytes(&valid));

    let hdr = book_header();
    assert!(IncrementalRefresh::decode(&hdr, &body).is_none());
}

#[test]
fn rejects_other_templates_and_accepts_the_legacy_one() {
    let body = refresh_body(5, 0x80, &sample_entries());
    let other = SbeHeader::new(INCREMENTAL_ROOT_BLOCK_LEN, 52, CME_SCHEMA_ID, 0);
    assert!(IncrementalRefresh::decode(&other, &body).is_none());
    let legacy = SbeHeader::new(
        INCREMENTAL_ROOT_BLOCK_LEN,
        TEMPLATE_INCREMENTAL_BOOK_32,
        CME_SCHEMA_ID,
        0,
    );
    let refresh = IncrementalRefresh::decode(&legacy, &body).unwrap();
    assert_eq!(collect(&refresh), sample_entries());
}

#[test]
fn rejects_a_zero_stride_a_short_root_and_a_missing_dimension() {
    let hdr = book_header();
    let mut zero_stride = refresh_body(5, 0x80, &sample_entries());
    zero_stride[11] = 0;
    assert!(IncrementalRefresh::decode(&hdr, &zero_stride).is_none());
    // Fewer bytes than the root block announces.
    assert!(IncrementalRefresh::decode(&hdr, &[0u8; 10]).is_none());
    // A whole root block, but no whole group dimension.
    assert!(IncrementalRefresh::decode(&hdr, &[1u8; 13]).is_none());
    // A root block narrower than its own fields, in too short a body.
    let narrow = SbeHeader::new(0, TEMPLATE_INCREMENTAL_BOOK_46, CME_SCHEMA_ID, 0);
    assert!(IncrementalRefresh::decode(&narrow, &[1u8; 8]).is_none());
}

#[test]
fn entry_blocks_narrower_than_the_fields_hold_no_entries() {
    let mut body = vec![0u8; 11];
    body.extend_from_slice(&26u16.to_le_bytes());
    body.push(2);
    body.extend_from_slice(&[0x30u8; 52]);
    let hdr = book_header();
    let refresh = IncrementalRefresh::decode(&hdr, &body).unwrap();
    assert!(collect(&refresh).is_empty());
}

#[test]
fn reads_negative_fields_in_twos_complement() {
    let mut e = sample_entries()[0];
    e.px_raw = -37_630_000_000;
    e.size = -1;
    e.security_id = i32::MIN;
    e.num_orders = i32::MAX;
    let body = refresh_body(0, 0, &[e]);
    let hdr = book_header();
    let refresh = IncrementalRefresh::decode(&hdr, &body).unwrap();
    assert_eq!(collect(&refresh), vec![e]);
}
