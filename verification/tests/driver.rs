use ethtool::{
    ethtool_execute, failed_replies, reply_item, reply_items, request_failed, request_flags,
    EthtoolAttr, EthtoolChannelAttr, EthtoolCmd, EthtoolError, EthtoolHeader, EthtoolMessage,
    Reply,
};

fn tlv(kind: u16, value: &[u8]) -> Vec<u8> {
    let mut out = Vec::new();
    out.extend_from_slice(&((value.len() + 4) as u16).to_ne_bytes());
    out.extend_from_slice(&kind.to_ne_bytes());
    out.extend_from_slice(value);
    while out.len() % 4 != 0 {
        out.push(0);
    }
    out
}

const REQUEST: u16 = 1;
const ACK: u16 = 4;
const DUMP: u16 = 0x300;

#[test]
fn dump_forces_dump_and_ack() {
    assert_eq!(request_flags(true, false), REQUEST | DUMP | ACK);
    assert_eq!(request_flags(true, true), REQUEST | DUMP | ACK);
}

#[test]
fn single_request_has_ack_only_when_asked() {
    assert_eq!(request_flags(false, false), REQUEST);
    assert_eq!(request_flags(false, true), REQUEST | ACK);
}

#[test]
fn get_without_name_is_a_dump() {
    let e = ethtool_execute(true, EthtoolMessage::new_channel_get(None), false);
    assert_eq!(e.flags, 0x305);
    assert_eq!(e.message, EthtoolMessage::new_channel_get(None));
    let e = ethtool_execute(false, EthtoolMessage::new_channel_get(Some("eth0")), false);
    assert_eq!(e.flags & DUMP, 0);
    assert_eq!(e.flags & ACK, 0);
    assert_eq!(e.flags, 1);
}

#[test]
fn refused_request_gives_one_failing_item() {
    let failure = request_failed("no such family");
    assert_eq!(
        failure,
        EthtoolError::RequestFailed("BUG: Request failed with no such family".to_string())
    );
    let items = failed_replies(failure.clone());
    assert_eq!(items, vec![Err(failure)]);
    let items = reply_items(Err(request_failed("socket closed")));
    assert_eq!(items.len(), 1);
    assert_eq!(
        items[0],
        Err(EthtoolError::RequestFailed("BUG: Request failed with socket closed".to_string()))
    );
}

#[test]
fn each_reply_becomes_one_item() {
    let m = EthtoolMessage::new_channel_get(None);
    assert_eq!(reply_item(Reply::Message(m.clone())), Ok(m));
    assert_eq!(reply_item(Reply::Error(-19)), Err(EthtoolError::NetlinkError(-19)));
    assert_eq!(reply_item(Reply::Unexpected), Err(EthtoolError::UnexpectedMessage));
    assert_eq!(
        reply_item(Reply::Undecodable("short".to_string())),
        Err(EthtoolError::Bug("BUG: decode error short".to_string()))
    );
}

#[test]
fn replies_keep_their_order_and_a_failure_ends_nothing() {
    let first = EthtoolMessage::parse(18, &tlv(9, &1u32.to_ne_bytes())).unwrap();
    let third = EthtoolMessage::parse(18, &tlv(9, &3u32.to_ne_bytes())).unwrap();
    let items = reply_items(Ok(vec![
        Reply::Message(first.clone()),
        Reply::Undecodable("bad".to_string()),
        Reply::Message(third.clone()),
        Reply::Error(-1),
    ]));
    assert_eq!(
        items,
        vec![
            Ok(first),
            Err(EthtoolError::Bug("BUG: decode error bad".to_string())),
            Ok(third),
            Err(EthtoolError::NetlinkError(-1)),
        ]
    );
}

#[test]
fn get_for_eth0_yields_one_reply() {
    let request = ethtool_execute(false, EthtoolMessage::new_channel_get(Some("eth0")), true);
    assert_eq!(request.flags, REQUEST | ACK);
    assert_eq!(request.message.emit(), tlv(0x8001, &tlv(2, b"eth0\0")));

    let mut wire = tlv(0x8001, &tlv(2, b"eth0\0"));
    wire.extend_from_slice(&tlv(5, &8u32.to_ne_bytes()));
    wire.extend_from_slice(&tlv(9, &4u32.to_ne_bytes()));
    let reply = EthtoolMessage::parse(18, &wire).unwrap();
    let items = reply_items(Ok(vec![Reply::Message(reply)]));
    assert_eq!(items.len(), 1);
    let message = items[0].clone().unwrap();
    assert_eq!(message.cmd, EthtoolCmd::ChannelGetReply);
    assert_eq!(
        message.nlas,
        vec![
            EthtoolAttr::Channel(EthtoolChannelAttr::Header(vec![EthtoolHeader::DevName(
                "eth0".to_string()
            )])),
            EthtoolAttr::Channel(EthtoolChannelAttr::MaxCombined(8)),
            EthtoolAttr::Channel(EthtoolChannelAttr::CombinedCount(4)),
        ]
    );
}

#[test]
fn set_for_eth0_asks_for_an_ack_and_ends_quietly() {
    let request = ethtool_execute(false, EthtoolMessage::new_channel_set(Some("eth0"), 6), true);
    assert_eq!(request.flags, REQUEST | ACK);
    assert_eq!(request.flags & DUMP, 0);
    let mut wire = tlv(0x8001, &tlv(2, b"eth0\0"));
    wire.extend_from_slice(&tlv(9, &6u32.to_ne_bytes()));
    assert_eq!(request.message.emit(), wire);

    let items = reply_items(Ok(vec![]));
    assert!(items.is_empty());
}
