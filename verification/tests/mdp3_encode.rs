use cme_md_connector::mdp3::book_refresh::{IncrementalRefresh, MdEntry};
use cme_md_connector::mdp3::encode::PacketBuilder;
use cme_md_connector::mdp3::enums::{MdEntryType, MdUpdateAction};
use cme_md_connector::mdp3::header::messages;
use cme_md_connector::mdp3::packet::PacketHeader;

fn entries() -> Vec<MdEntry> {
    vec![
        MdEntry {
            security_id: 5,
            rpt_seq: 1,
            px_raw: 4_200_750_000_000,
            size: 12,
            num_orders: 4,
            price_level: 1,
            update_action: MdUpdateAction::New,
            entry_type: MdEntryType::Bid,
        },
        MdEntry {
            security_id: 5,
            rpt_seq: 2,
            px_raw: 4_201_000_000_000,
            size: 9,
            num_orders: 1,
            price_level: 1,
            update_action: MdUpdateAction::New,
            entry_type: MdEntryType::Offer,
        },
    ]
}

fn decode_all(packet: &[u8]) -> (u32, u64, Vec<MdEntry>) {
    let (ph, body) = PacketHeader::parse(packet).expect("packet header");
    let mut all = Vec::new();
    let mut msgs = messages(body);
    while let Some(m) = msgs.next() {
        let r = IncrementalRefresh::decode(&m.header, m.body).expect("decode");
        let mut it = r.entries();
        while let Some(e) = it.next() {
            all.push(e);
        }
    }
    (ph.seq_num(), ph.sending_time(), all)
}

#[test]
fn round_trips_a_single_refresh() {
    let entries = entries();
    let mut b = PacketBuilder::new(11, 22);
    b.add_incremental_refresh(123, 0x80, &entries);
    let packet = b.finish();

    let (seq, ts, decoded) = decode_all(&packet);
    assert_eq!(seq, 11);
    assert_eq!(ts, 22);
    assert_eq!(decoded, entries);
}

#[test]
fn round_trips_multiple_messages_in_one_packet() {
    let entries = entries();
    let mut b = PacketBuilder::new(7, 0);
    b.add_incremental_refresh(1, 0x00, &entries[..1]);
    b.add_incremental_refresh(2, 0x80, &entries[1..]);
    let packet = b.finish();

    let (_, _, decoded) = decode_all(&packet);
    assert_eq!(decoded, entries);
}

#[test]
fn writes_the_exact_bytes_of_a_refresh() {
    let e = MdEntry {
        security_id: -2,
        rpt_seq: 0x0403_0201,
        px_raw: -1,
        size: 3,
        num_orders: 4,
        price_level: 9,
        update_action: MdUpdateAction::Overlay,
        entry_type: MdEntryType::ImpliedOffer,
    };
    let mut b = PacketBuilder::new(0x0A0B_0C0D, 1);
    b.add_incremental_refresh(0x0807_0605_0403_0201, 0x81, &[e]);
    let mut want: Vec<u8> = vec![0x0D, 0x0C, 0x0B, 0x0A, 1, 0, 0, 0, 0, 0, 0, 0];
    want.extend_from_slice(&[54, 0]); // 8 + 14 + 32
    want.extend_from_slice(&[11, 0, 46, 0, 1, 0, 0, 0]);
    want.extend_from_slice(&[1, 2, 3, 4, 5, 6, 7, 8, 0x81, 0, 0]);
    want.extend_from_slice(&[32, 0, 1]);
    want.extend_from_slice(&[0xFF; 8]);
    want.extend_from_slice(&[3, 0, 0, 0]);
    want.extend_from_slice(&[0xFE, 0xFF, 0xFF, 0xFF]);
    want.extend_from_slice(&[1, 2, 3, 4]);
    want.extend_from_slice(&[4, 0, 0, 0]);
    want.extend_from_slice(&[9, 5, b'F', 0, 0, 0, 0, 0]);
    assert_eq!(b.as_bytes(), &want[..]);
    assert_eq!(b.finish(), want);
}

#[test]
fn calls_can_be_chained() {
    let es = entries();
    let mut b = PacketBuilder::new(1, 2);
    b.add_incremental_refresh(1, 0, &es[..1])
        .add_incremental_refresh(2, 0x80, &es[1..]);
    let (_, _, decoded) = decode_all(b.as_bytes());
    assert_eq!(decoded, es);
}

#[test]
fn the_group_dimension_counts_modulo_its_byte() {
    let es = vec![entries()[0]; 257];
    let mut b = PacketBuilder::new(1, 2);
    b.add_incremental_refresh(1, 0, &es[..255]);
    assert_eq!(decode_all(b.as_bytes()).2.len(), 255);
    let mut c = PacketBuilder::new(1, 2);
    c.add_incremental_refresh(1, 0, &es);
    assert_eq!(decode_all(c.as_bytes()).2.len(), 1);
}
