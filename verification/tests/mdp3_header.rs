use cme_md_connector::mdp3::header::{messages, SbeHeader, SbeMessage, CME_SCHEMA_ID, SBE_HEADER_LEN};

/// Frame one SBE message: `u16 size | SbeHeader | payload`.
fn frame(template_id: u16, block_length: u16, payload: &[u8]) -> Vec<u8> {
    let mut out = Vec::new();
    let size = (SBE_HEADER_LEN + payload.len()) as u16;
    out.extend_from_slice(&size.to_le_bytes());
    out.extend_from_slice(&block_length.to_le_bytes());
    out.extend_from_slice(&template_id.to_le_bytes());
    out.extend_from_slice(&CME_SCHEMA_ID.to_le_bytes());
    out.extend_from_slice(&0u16.to_le_bytes()); // version
    out.extend_from_slice(payload);
    out
}

fn collect(body: &[u8]) -> Vec<SbeMessage<'_>> {
    let mut it = messages(body);
    let mut out = Vec::new();
    while let Some(m) = it.next() {
        out.push(m);
    }
    out
}

#[test]
fn iterates_two_framed_messages() {
    let mut body = frame(46, 11, &[1, 2, 3]);
    body.extend(frame(52, 18, &[9, 9]));

    let msgs = collect(&body);
    assert_eq!(msgs.len(), 2);

    assert_eq!(msgs[0].header.template_id(), 46);
    assert_eq!(msgs[0].header.block_length(), 11);
    assert_eq!(msgs[0].header.schema_id(), CME_SCHEMA_ID);
    assert_eq!(msgs[0].body, &[1, 2, 3]);

    assert_eq!(msgs[1].header.template_id(), 52);
    assert_eq!(msgs[1].body, &[9, 9]);
}

#[test]
fn empty_body_yields_no_messages() {
    assert_eq!(collect(&[]).len(), 0);
}

#[test]
fn stops_on_truncated_size_prefix() {
    // A single stray byte can't start a message.
    assert_eq!(collect(&[0x05]).len(), 0);
}

#[test]
fn stops_when_declared_size_exceeds_remaining() {
    // size says 8 bytes follow but only 4 are present.
    let mut body = Vec::new();
    body.extend_from_slice(&8u16.to_le_bytes());
    body.extend_from_slice(&[0, 0, 0, 0]);
    assert_eq!(collect(&body).len(), 0);
}

#[test]
fn stops_when_declared_size_is_smaller_than_a_header() {
    let mut body = 7u16.to_le_bytes().to_vec();
    body.extend_from_slice(&[0; 32]);
    assert_eq!(collect(&body).len(), 0);
}

#[test]
fn a_trailing_fragment_leaves_the_messages_before_it() {
    let mut body = frame(46, 11, &[1, 2, 3]);
    body.extend_from_slice(&[9, 0, 1]);
    let mut it = messages(&body);
    assert_eq!(it.next().unwrap().body, &[1, 2, 3]);
    assert!(it.next().is_none());
    assert!(it.next().is_none());
}

#[test]
fn a_bare_header_is_a_message_with_an_empty_body() {
    let body = frame(0x0102, 0x0304, &[]);
    let msgs = collect(&body);
    assert_eq!(msgs.len(), 1);
    assert_eq!(msgs[0].header, SbeHeader::new(0x0304, 0x0102, 1, 0));
    assert_eq!(msgs[0].header.version(), 0);
    assert!(msgs[0].body.is_empty());
}

#[test]
fn whole_frames_of_any_template_are_read_before_what_follows() {
    let mut body = frame(1, 0, &[]);
    body.extend(frame(0xFFFF, 7, &[5; 40]));
    let alone = collect(&body).len();
    let mut joined = body.clone();
    joined.extend(frame(46, 11, &[1]));
    let msgs = collect(&joined);
    assert_eq!((alone, msgs.len()), (2, 3));
    assert_eq!(msgs[1].body, &[5; 40]);
    assert_eq!(msgs[2].body, &[1]);
}
