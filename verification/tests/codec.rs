use ethtool::{
    parse_channel_nlas, ChannelFault, EthtoolAttr, EthtoolChannelAttr, EthtoolCmd, EthtoolError,
    EthtoolHeader, EthtoolMessage, Failure, HeaderFault, RawNla,
};

fn tlv(kind: u16, value: &[u8]) -> Vec<u8> {
    let mut out = Vec::new();
    out.extend_from_slice(&((value.len() + 4) as u16).to_ne_bytes());
    out.extend_from_slice(&kind.to_ne_bytes());
    out.extend_from_slice(value);
    while out.len() % 4 != 0 {
        out.push(0);
    }
    out
}

fn eth0_header() -> EthtoolChannelAttr {
    EthtoolChannelAttr::Header(vec![EthtoolHeader::DevName("eth0".to_string())])
}

fn round_trip(attr: EthtoolChannelAttr) {
    assert!(attr.fits());
    let bytes = attr.emit();
    let parsed = parse_channel_nlas(&bytes);
    assert_eq!(parsed, Ok(vec![EthtoolAttr::Channel(attr)]));
}

#[test]
fn max_combined_has_exact_bytes() {
    let attr = EthtoolChannelAttr::MaxCombined(8);
    assert_eq!(attr.kind(), 5);
    assert_eq!(attr.value_len(), 4);
    assert_eq!(attr.emit_value(), 8u32.to_ne_bytes().to_vec());
    assert_eq!(attr.emit(), tlv(5, &8u32.to_ne_bytes()));
}

#[test]
fn combined_count_has_exact_bytes() {
    let attr = EthtoolChannelAttr::CombinedCount(0x0102_0304);
    assert_eq!(attr.kind(), 9);
    assert_eq!(attr.emit(), tlv(9, &0x0102_0304u32.to_ne_bytes()));
}

#[test]
fn header_has_exact_bytes() {
    let attr = eth0_header();
    assert_eq!(attr.kind(), 0x8001);
    let inner = tlv(2, b"eth0\0");
    assert_eq!(inner.len(), 12);
    assert_eq!(attr.value_len(), 12);
    assert_eq!(attr.emit_value(), inner);
    assert_eq!(attr.emit(), tlv(0x8001, &inner));
}

#[test]
fn header_sub_attributes_have_exact_bytes() {
    assert_eq!(EthtoolHeader::DevIndex(7).emit(), tlv(1, &7u32.to_ne_bytes()));
    assert_eq!(EthtoolHeader::Flags(3).emit(), tlv(3, &3u32.to_ne_bytes()));
    let name = EthtoolHeader::DevName("lo".to_string());
    assert_eq!(name.value_len(), 3);
    assert_eq!(name.emit(), tlv(2, b"lo\0"));
    let other = EthtoolHeader::Other(RawNla::new(0x44, vec![9, 8]));
    assert_eq!(other.kind(), 0x44);
    assert_eq!(other.emit(), tlv(0x44, &[9, 8]));
}

#[test]
fn round_trip_of_known_attributes() {
    round_trip(EthtoolChannelAttr::MaxCombined(0));
    round_trip(EthtoolChannelAttr::MaxCombined(u32::MAX));
    round_trip(EthtoolChannelAttr::CombinedCount(4));
    round_trip(EthtoolChannelAttr::Header(vec![]));
    round_trip(eth0_header());
    round_trip(EthtoolChannelAttr::Header(vec![
        EthtoolHeader::DevIndex(2),
        EthtoolHeader::DevName("wlan0".to_string()),
        EthtoolHeader::Flags(1),
        EthtoolHeader::Other(RawNla::new(0x10, vec![1, 2, 3])),
    ]));
}

#[test]
fn unknown_kind_is_kept_and_written_back() {
    let bytes = tlv(7, &[1, 2, 3]);
    let parsed = parse_channel_nlas(&bytes).unwrap();
    let expected = EthtoolChannelAttr::Other(RawNla::new(7, vec![1, 2, 3]));
    assert_eq!(parsed, vec![EthtoolAttr::Channel(expected.clone())]);
    assert!(expected.fits());
    assert_eq!(expected.emit(), bytes);
}

#[test]
fn unknown_kind_keeps_its_flags() {
    let nested = tlv(0x8007, &[]);
    let parsed = parse_channel_nlas(&nested).unwrap();
    assert_eq!(
        parsed,
        vec![EthtoolAttr::Channel(EthtoolChannelAttr::Other(RawNla::new(0x8007, vec![])))]
    );
    let ordered = tlv(0x4007, &[5]);
    let parsed = parse_channel_nlas(&ordered).unwrap();
    let attr = EthtoolChannelAttr::Other(RawNla::new(0x4007, vec![5]));
    assert_eq!(parsed, vec![EthtoolAttr::Channel(attr.clone())]);
    assert_eq!(attr.emit(), ordered);
}

#[test]
fn nested_flag_wins_over_byte_order_flag_when_written() {
    let attr = EthtoolChannelAttr::Other(RawNla::new(0xc007, vec![1]));
    assert!(attr.fits());
    assert_eq!(attr.emit(), tlv(0x8007, &[1]));
}

#[test]
fn unknown_payload_never_fails() {
    let bytes = tlv(0x123, &[0xff, 0xfe, 0xfd, 0xfc, 0xfb]);
    let parsed = parse_channel_nlas(&bytes).unwrap();
    assert_eq!(
        parsed,
        vec![EthtoolAttr::Channel(EthtoolChannelAttr::Other(RawNla::new(
            0x123,
            vec![0xff, 0xfe, 0xfd, 0xfc, 0xfb]
        )))]
    );
}

#[test]
fn flags_do_not_hide_a_known_kind() {
    let bytes = tlv(0x8005, &8u32.to_ne_bytes());
    assert_eq!(
        parse_channel_nlas(&bytes),
        Ok(vec![EthtoolAttr::Channel(EthtoolChannelAttr::MaxCombined(8))])
    );
    let bytes = tlv(0x0001, &tlv(1, &5u32.to_ne_bytes()));
    assert_eq!(
        parse_channel_nlas(&bytes),
        Ok(vec![EthtoolAttr::Channel(EthtoolChannelAttr::Header(vec![
            EthtoolHeader::DevIndex(5)
        ]))])
    );
}

#[test]
fn empty_buffer_is_an_empty_group() {
    assert_eq!(parse_channel_nlas(&[]), Ok(vec![]));
}

#[test]
fn several_attributes_come_in_order() {
    let mut bytes = tlv(0x8001, &tlv(2, b"eth0\0"));
    bytes.extend_from_slice(&tlv(5, &8u32.to_ne_bytes()));
    bytes.extend_from_slice(&tlv(9, &4u32.to_ne_bytes()));
    assert_eq!(
        parse_channel_nlas(&bytes),
        Ok(vec![
            EthtoolAttr::Channel(eth0_header()),
            EthtoolAttr::Channel(EthtoolChannelAttr::MaxCombined(8)),
            EthtoolAttr::Channel(EthtoolChannelAttr::CombinedCount(4)),
        ])
    );
}

#[test]
fn last_attribute_may_lack_its_padding() {
    let mut bytes = tlv(5, &8u32.to_ne_bytes());
    let mut last = tlv(7, &[1]);
    last.truncate(5);
    bytes.extend_from_slice(&last);
    assert_eq!(
        parse_channel_nlas(&bytes),
        Ok(vec![
            EthtoolAttr::Channel(EthtoolChannelAttr::MaxCombined(8)),
            EthtoolAttr::Channel(EthtoolChannelAttr::Other(RawNla::new(7, vec![1]))),
        ])
    );
}

#[test]
fn truncated_header_fails_with_its_place() {
    let mut bytes = tlv(5, &8u32.to_ne_bytes());
    bytes.extend_from_slice(&[8, 0, 9]);
    assert_eq!(parse_channel_nlas(&bytes), Err(Failure { index: 1, fault: ChannelFault::Frame }));
}

#[test]
fn length_out_of_range_fails() {
    let mut short = Vec::new();
    short.extend_from_slice(&3u16.to_ne_bytes());
    short.extend_from_slice(&5u16.to_ne_bytes());
    assert_eq!(parse_channel_nlas(&short), Err(Failure { index: 0, fault: ChannelFault::Frame }));
    let mut long = Vec::new();
    long.extend_from_slice(&12u16.to_ne_bytes());
    long.extend_from_slice(&5u16.to_ne_bytes());
    long.extend_from_slice(&[0, 0, 0, 0]);
    assert_eq!(parse_channel_nlas(&long), Err(Failure { index: 0, fault: ChannelFault::Frame }));
}

#[test]
fn count_of_wrong_width_fails() {
    assert_eq!(
        parse_channel_nlas(&tlv(5, &[1, 2, 3])),
        Err(Failure { index: 0, fault: ChannelFault::MaxCombined })
    );
    let mut bytes = tlv(5, &8u32.to_ne_bytes());
    bytes.extend_from_slice(&tlv(9, &[1, 2, 3, 4, 5]));
    assert_eq!(
        parse_channel_nlas(&bytes),
        Err(Failure { index: 1, fault: ChannelFault::CombinedCount })
    );
}

#[test]
fn nested_failure_is_not_skipped() {
    let mut inner = tlv(2, b"eth0\0");
    inner.extend_from_slice(&tlv(1, &[1, 2]));
    let mut bytes = tlv(5, &8u32.to_ne_bytes());
    bytes.extend_from_slice(&tlv(0x8001, &inner));
    bytes.extend_from_slice(&tlv(9, &4u32.to_ne_bytes()));
    assert_eq!(
        parse_channel_nlas(&bytes),
        Err(Failure { index: 1, fault: ChannelFault::Header(1, HeaderFault::DevIndex) })
    );
}

#[test]
fn nested_faults_are_told_apart() {
    assert_eq!(
        parse_channel_nlas(&tlv(0x8001, &tlv(2, &[0xff, 0xff]))),
        Err(Failure { index: 0, fault: ChannelFault::Header(0, HeaderFault::DevName) })
    );
    assert_eq!(
        parse_channel_nlas(&tlv(0x8001, &tlv(3, &[1]))),
        Err(Failure { index: 0, fault: ChannelFault::Header(0, HeaderFault::Flags) })
    );
    assert_eq!(
        parse_channel_nlas(&tlv(0x8001, &[1, 2, 3])),
        Err(Failure { index: 0, fault: ChannelFault::Header(0, HeaderFault::Frame) })
    );
}

#[test]
fn name_without_closing_nul_is_read() {
    assert_eq!(
        parse_channel_nlas(&tlv(0x8001, &tlv(2, b"eth1"))),
        Ok(vec![EthtoolAttr::Channel(EthtoolChannelAttr::Header(vec![
            EthtoolHeader::DevName("eth1".to_string())
        ]))])
    );
    assert_eq!(
        parse_channel_nlas(&tlv(0x8001, &tlv(2, &[]))),
        Ok(vec![EthtoolAttr::Channel(EthtoolChannelAttr::Header(vec![
            EthtoolHeader::DevName(String::new())
        ]))])
    );
}

#[test]
fn payload_must_fit_the_length_field() {
    let largest = EthtoolChannelAttr::Other(RawNla::new(7, vec![0; 0xfffb]));
    assert!(largest.fits());
    let bytes = largest.emit();
    assert_eq!(bytes.len(), 0x10000);
    assert_eq!(&bytes[..2], &0xffffu16.to_ne_bytes());
    let too_large = EthtoolChannelAttr::Other(RawNla::new(7, vec![0; 0xfffc]));
    assert!(!too_large.fits());
    let name = EthtoolHeader::DevName("x".repeat(0xfffb));
    assert!(!name.fits());
    let many = EthtoolChannelAttr::Header(vec![
        EthtoolHeader::Other(RawNla::new(0x10, vec![0; 0x8000])),
        EthtoolHeader::Other(RawNla::new(0x10, vec![0; 0x8000])),
    ]);
    assert!(!many.fits());
}

#[test]
fn get_message_selects_one_or_all() {
    let one = EthtoolMessage::new_channel_get(Some("eth0"));
    assert_eq!(one.cmd, EthtoolCmd::ChannelGet);
    assert_eq!(one.message_type(), 17);
    assert_eq!(one.nlas, vec![EthtoolAttr::Channel(eth0_header())]);
    assert!(one.fits());
    assert_eq!(one.emit(), tlv(0x8001, &tlv(2, b"eth0\0")));
    let all = EthtoolMessage::new_channel_get(None);
    assert_eq!(all.nlas, vec![EthtoolAttr::Channel(EthtoolChannelAttr::Header(vec![]))]);
    assert_eq!(all.emit(), tlv(0x8001, &[]));
}

#[test]
fn set_message_carries_header_and_count() {
    let m = EthtoolMessage::new_channel_set(Some("eth0"), 6);
    assert_eq!(m.cmd, EthtoolCmd::ChannelSet);
    assert_eq!(m.message_type(), 18);
    assert_eq!(
        m.nlas,
        vec![
            EthtoolAttr::Channel(eth0_header()),
            EthtoolAttr::Channel(EthtoolChannelAttr::CombinedCount(6)),
        ]
    );
    let mut bytes = tlv(0x8001, &tlv(2, b"eth0\0"));
    bytes.extend_from_slice(&tlv(9, &6u32.to_ne_bytes()));
    assert!(m.fits());
    assert_eq!(m.emit(), bytes);
}

#[test]
fn message_parse_knows_the_reply_only() {
    let bytes = tlv(5, &8u32.to_ne_bytes());
    let m = EthtoolMessage::parse(18, &bytes).unwrap();
    assert_eq!(m.cmd, EthtoolCmd::ChannelGetReply);
    assert_eq!(m.nlas, vec![EthtoolAttr::Channel(EthtoolChannelAttr::MaxCombined(8))]);
    assert_eq!(EthtoolMessage::parse(17, &bytes), Err(EthtoolError::UnknownCommand(17)));
    assert_eq!(
        EthtoolMessage::parse(18, &[1, 2]),
        Err(EthtoolError::Decode(Failure { index: 0, fault: ChannelFault::Frame }))
    );
}

#[test]
fn buffer_len_is_the_padded_length() {
    assert_eq!(EthtoolChannelAttr::MaxCombined(1).buffer_len(), 8);
    assert_eq!(eth0_header().buffer_len(), 16);
    assert_eq!(EthtoolChannelAttr::Other(RawNla::new(7, vec![1])).buffer_len(), 8);
    assert_eq!(EthtoolChannelAttr::Other(RawNla::new(7, vec![])).buffer_len(), 4);
    assert_eq!(EthtoolHeader::DevName("eth0".to_string()).buffer_len(), 12);
    assert_eq!(EthtoolHeader::DevIndex(1).buffer_len(), 8);
}

#[test]
fn canonical_bytes_are_written_back() {
    let mut inner = tlv(1, &3u32.to_ne_bytes());
    inner.extend_from_slice(&tlv(2, b"eth0\0"));
    inner.extend_from_slice(&tlv(3, &0u32.to_ne_bytes()));
    inner.extend_from_slice(&tlv(0x4044, &[7, 7, 7]));
    let mut bytes = tlv(0x8001, &inner);
    bytes.extend_from_slice(&tlv(5, &8u32.to_ne_bytes()));
    bytes.extend_from_slice(&tlv(9, &4u32.to_ne_bytes()));
    bytes.extend_from_slice(&tlv(0x8030, &[1, 2, 3, 4, 5, 6]));
    let message = EthtoolMessage::parse(18, &bytes).unwrap();
    assert_eq!(message.nlas.len(), 4);
    assert!(message.fits());
    assert_eq!(message.emit(), bytes);
}
