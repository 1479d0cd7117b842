use cme_md_connector::mdp3::packet::{PacketHeader, PACKET_HEADER_LEN};

fn header_bytes(seq: u32, sending_time: u64) -> [u8; PACKET_HEADER_LEN] {
    let mut buf = [0u8; PACKET_HEADER_LEN];
    buf[0..4].copy_from_slice(&seq.to_le_bytes());
    buf[4..12].copy_from_slice(&sending_time.to_le_bytes());
    buf
}

#[test]
fn parses_seq_num_and_sending_time_little_endian() {
    let buf = header_bytes(0x0102_0304, 0x0102_0304_0506_0708);
    let (hdr, body) = PacketHeader::parse(&buf).expect("12 bytes is enough");
    assert_eq!(hdr.seq_num(), 0x0102_0304);
    assert_eq!(hdr.sending_time(), 0x0102_0304_0506_0708);
    assert_eq!(body.len(), 0, "no message bytes follow a bare header");
}

#[test]
fn returns_trailing_message_bytes_as_body() {
    let mut buf = header_bytes(7, 999).to_vec();
    buf.extend_from_slice(&[0xAA, 0xBB, 0xCC]);
    let (hdr, body) = PacketHeader::parse(&buf).expect("parse");
    assert_eq!(hdr.seq_num(), 7);
    assert_eq!(body, &[0xAA, 0xBB, 0xCC]);
}

#[test]
fn rejects_buffer_shorter_than_header() {
    assert!(PacketHeader::parse(&[0u8; 8]).is_none());
    assert!(PacketHeader::parse(&[]).is_none());
    assert!(PacketHeader::parse(&[0u8; 11]).is_none());
    assert!(PacketHeader::parse(&[0u8; 12]).is_some());
}
