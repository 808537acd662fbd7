use bancho::dispatch::{plan_dispatch, plan_for_player, HandlerEntry, Registries, Registry};
use bancho::error::BanchoError;
use bancho::packets::{
    BasePacket, OsuChangeAction, OsuChannelJoin, OsuFriendAdd, OsuLogout, OsuMatchChangeSlot, OsuPing,
    OsuSendPrivateMessage, OsuUserStatsRequest, Packets, Player,
};
use bancho::reader::PacketReader;
use bancho::records::{slot_has_player, write_match, write_scoreframe, MultiplayerMatch};
use bancho::writer::{write_i32, write_i32_list, write_message, write_packet, write_string, write_u16, write_u32};

fn frame(id: u16, body: &[u8]) -> Vec<u8> {
    let mut out = write_u16(id).to_vec();
    out.extend(write_u32(body.len() as u32));
    out.extend_from_slice(body);
    out
}

fn decls() -> Vec<HandlerEntry<u8>> {
    vec![
        HandlerEntry { packet: Packets::OsuChangeAction, restricted_ok: true, handler: 1 },
        HandlerEntry { packet: Packets::OsuSendPublicMessage, restricted_ok: false, handler: 2 },
        HandlerEntry { packet: Packets::OsuPing, restricted_ok: true, handler: 3 },
    ]
}

fn player(restricted: bool) -> Player {
    Player { id: 3, name: "tester".to_string(), restricted }
}

#[test]
fn catalogue_ids_are_stable() {
    assert_eq!(Packets::OsuChangeAction.id(), 0);
    assert_eq!(Packets::OsuPing.id(), 4);
    assert_eq!(Packets::ChoUserId.id(), 5);
    assert_eq!(Packets::ChoProtocolVersion.id(), 75);
    assert_eq!(Packets::OsuTournamentLeaveMatchChannel.id(), 109);
    assert_eq!(Packets::from_id(83), Some(Packets::ChoUserPresence));
    assert_eq!(Packets::from_id(6), None);
    assert_eq!(Packets::from_id(35), None);
    assert_eq!(Packets::from_id(110), None);
    assert_eq!(Packets::from_id(u16::MAX), None);
}

#[test]
fn unregistered_frame_is_skipped_whole() {
    let mut data = frame(6, &[9, 9, 9, 9, 9]);
    let mut body = vec![2u8];
    body.extend(write_string("playing"));
    body.extend(write_string("abc"));
    body.extend(write_u32(64));
    body.push(0);
    data.extend(frame(0, &body));
    let registries = Registries::build(&decls()).unwrap();
    let calls = plan_dispatch(&registries.full, data).unwrap();
    assert_eq!(calls.len(), 1);
    assert_eq!(calls[0].packet_id, 0);
    assert_eq!(calls[0].handler, 1);
    assert_eq!(calls[0].body, body);
    let mut r = PacketReader::new(calls[0].body.clone());
    let action = OsuChangeAction::new(&mut r).unwrap();
    assert_eq!(action.action, 2);
    assert_eq!(action.info_text, "playing");
    assert_eq!(action.map_md5, "abc");
    assert_eq!(action.mods, 64);
    assert_eq!(action.mode, 0);
    assert!(r.is_empty());
}

#[test]
fn truncated_frame_fails_the_whole_request() {
    let mut data = frame(0, &[1, 0]);
    data.extend(write_u16(0));
    data.extend(write_u32(100));
    data.extend([0u8; 10]);
    let registries = Registries::build(&decls()).unwrap();
    match plan_dispatch(&registries.full, data) {
        Err(e) => assert_eq!(e, BanchoError::TruncatedFrame),
        Ok(_) => panic!("a truncated frame must fail the request"),
    }
}

#[test]
fn partial_header_is_unexpected_eof() {
    let registries = Registries::build(&decls()).unwrap();
    match plan_dispatch(&registries.full, vec![0, 0, 1]) {
        Err(e) => assert_eq!(e, BanchoError::UnexpectedEof),
        Ok(_) => panic!("a partial header must fail the request"),
    }
}

#[test]
fn empty_request_makes_no_calls() {
    let registries = Registries::build(&decls()).unwrap();
    assert!(plan_dispatch(&registries.full, Vec::new()).unwrap().is_empty());
}

#[test]
fn restricted_session_skips_unrestricted_handlers() {
    let registries = Registries::build(&decls()).unwrap();
    let data = frame(1, &write_string("hi"));
    let calls = plan_for_player(&registries, &player(true), data.clone()).unwrap();
    assert!(calls.is_empty());
    let calls = plan_for_player(&registries, &player(false), data).unwrap();
    assert_eq!(calls.len(), 1);
    assert_eq!(calls[0].handler, 2);
    assert_eq!(registries.restricted.get(1), None);
    assert_eq!(registries.full.get(1), Some(2));
    assert_eq!(registries.restricted.get(0), Some(1));
}

#[test]
fn ping_is_never_dispatched() {
    let registries = Registries::build(&decls()).unwrap();
    let mut data = frame(4, &[]);
    data.extend(frame(4, &[7, 7]));
    assert!(plan_dispatch(&registries.full, data).unwrap().is_empty());
}

#[test]
fn duplicate_declaration_is_refused() {
    let mut d = decls();
    d.push(HandlerEntry { packet: Packets::OsuSendPublicMessage, restricted_ok: false, handler: 9 });
    assert_eq!(Registry::build(&d, false).unwrap_err().id, 1);
    assert!(Registry::build(&d, true).is_ok());
    assert!(Registries::build(&d).is_err());
}

#[test]
fn match_slot_ids_follow_occupied_statuses() {
    let mut bytes = Vec::new();
    bytes.extend(write_u16(7));
    bytes.push(0);
    bytes.push(0);
    bytes.extend(write_i32(0));
    bytes.extend(write_string("room"));
    bytes.extend(write_string(""));
    bytes.extend(write_string("map"));
    bytes.extend(write_i32(123));
    bytes.extend(write_string("md5"));
    let mut statuses = vec![4u8, 1, 4];
    statuses.extend([1u8; 13]);
    bytes.extend(&statuses);
    bytes.extend([0u8; 16]);
    bytes.extend(write_i32(1001));
    bytes.extend(write_i32(1002));
    bytes.extend(write_i32(1001));
    bytes.extend([0, 1, 2]);
    bytes.push(0);
    bytes.extend(write_i32(55));
    let mut r = PacketReader::new(bytes);
    let m = r.read_match().unwrap();
    assert!(r.is_empty());
    assert_eq!(m.id, 7);
    assert_eq!(m.name, "room");
    assert_eq!(m.map_id, 123);
    assert_eq!(m.slot_ids[0], Some(1001));
    assert_eq!(m.slot_ids[1], None);
    assert_eq!(m.slot_ids[2], Some(1002));
    assert!(m.slot_ids[3..].iter().all(|s| s.is_none()));
    assert_eq!(m.host_id, 1001);
    assert_eq!(m.team_type, 2);
    assert!(!m.freemods);
    assert!(m.slot_mods.is_empty());
    assert_eq!(m.seed, 55);
}

#[test]
fn freemod_match_reads_sixteen_slot_mods() {
    let mut bytes = Vec::new();
    bytes.extend(write_u16(1));
    bytes.extend([1, 0]);
    bytes.extend(write_i32(0));
    bytes.extend([0, 0, 0]);
    bytes.extend(write_i32(0));
    bytes.push(0);
    bytes.extend([0u8; 32]);
    bytes.extend(write_i32(9));
    bytes.extend([0, 0, 0, 1]);
    for i in 0..16 {
        bytes.extend(write_i32(i));
    }
    bytes.extend(write_i32(-1));
    let mut r = PacketReader::new(bytes.clone());
    let m = r.read_match().unwrap();
    assert!(m.in_progress);
    assert!(m.freemods);
    assert_eq!(m.slot_mods, (0..16).collect::<Vec<i32>>());
    assert_eq!(m.seed, -1);
    assert!(r.is_empty());
    let mut short = PacketReader::new(bytes[..bytes.len() - 5].to_vec());
    assert_eq!(short.read_match().unwrap_err(), BanchoError::UnexpectedEof);
}

#[test]
fn slot_status_is_a_bitmask_test() {
    assert!(!slot_has_player(0));
    assert!(!slot_has_player(1));
    assert!(!slot_has_player(2));
    assert!(slot_has_player(4));
    assert!(slot_has_player(64));
    assert!(!slot_has_player(-128));
    assert!(slot_has_player(-1));
}

fn scoreframe_prefix(v2: u8) -> Vec<u8> {
    let mut b = Vec::new();
    b.extend(write_i32(1000));
    b.push(3);
    for n in [300u16, 100, 50, 10, 5, 1] {
        b.extend(write_u16(n));
    }
    b.extend(write_i32(123456));
    b.extend(write_u16(77));
    b.extend(write_u16(12));
    b.extend([1, 200, 0, v2]);
    b
}

#[test]
fn scoreframe_without_v2_is_29_bytes() {
    let mut bytes = scoreframe_prefix(0);
    assert_eq!(bytes.len(), 29);
    bytes.push(0xee);
    let mut r = PacketReader::new(bytes);
    let sf = r.read_scoreframe().unwrap();
    assert_eq!(r.remaining(), 1);
    assert_eq!(sf.time, 1000);
    assert_eq!(sf.num300, 300);
    assert_eq!(sf.num_miss, 1);
    assert_eq!(sf.total_score, 123456);
    assert_eq!(sf.max_combo, 77);
    assert!(sf.perfect);
    assert_eq!(sf.current_hp, 200);
    assert!(!sf.score_v2);
    assert_eq!(sf.combo_portion_bits, 0);
}

#[test]
fn scoreframe_with_v2_reads_two_doubles() {
    let mut bytes = scoreframe_prefix(1);
    bytes.extend(1.5f64.to_le_bytes());
    bytes.extend(0.25f64.to_le_bytes());
    let mut r = PacketReader::new(bytes);
    let sf = r.read_scoreframe().unwrap();
    assert!(r.is_empty());
    assert!(sf.score_v2);
    assert_eq!(f64::from_bits(sf.combo_portion_bits), 1.5);
    assert_eq!(f64::from_bits(sf.bonus_portion_bits), 0.25);
    let mut short = PacketReader::new(scoreframe_prefix(1));
    assert_eq!(short.read_scoreframe().unwrap_err(), BanchoError::UnexpectedEof);
}

#[test]
fn replay_bundle_keeps_its_raw_bytes() {
    let mut bytes = Vec::new();
    bytes.extend(write_i32(-5));
    bytes.extend(write_u16(2));
    for t in [10, 20] {
        bytes.extend([1, 0]);
        bytes.extend(1.0f32.to_le_bytes());
        bytes.extend(2.0f32.to_le_bytes());
        bytes.extend(write_i32(t));
    }
    bytes.push(3);
    bytes.extend(scoreframe_prefix(0));
    bytes.extend(write_u16(99));
    let mut r = PacketReader::new(bytes.clone());
    let b = r.read_replayframe_bundle().unwrap();
    assert!(r.is_empty());
    assert_eq!(b.raw_data, bytes);
    assert_eq!(b.extra, -5);
    assert_eq!(b.frames.len(), 2);
    assert_eq!(b.frames[1].time, 20);
    assert_eq!(f32::from_bits(b.frames[0].x_bits), 1.0);
    assert_eq!(f32::from_bits(b.frames[0].y_bits), 2.0);
    assert_eq!(b.action, 3);
    assert_eq!(b.score_frame.total_score, 123456);
    assert_eq!(b.sequence, 99);
}

#[test]
fn client_packets_decode_their_fields() {
    let mut r = PacketReader::new(write_i32(1234).to_vec());
    let p = OsuFriendAdd::new(&mut r).unwrap();
    assert_eq!((p.id, p.user_id), (73, 1234));
    let mut r = PacketReader::new(write_string("#lobby"));
    let p = OsuChannelJoin::new(&mut r).unwrap();
    assert_eq!((p.id, p.channel_name.as_str()), (63, "#lobby"));
    let mut r = PacketReader::new(write_i32_list(vec![5, 6]));
    let p = OsuUserStatsRequest::new(&mut r).unwrap();
    assert_eq!(p.user_ids, vec![5, 6]);
    let mut r = PacketReader::new(write_message("a", "b", "c", 1));
    let p = OsuSendPrivateMessage::new(&mut r).unwrap();
    assert_eq!(p.message.recipient, "c");
    let mut r = PacketReader::new(vec![1, 2]);
    assert_eq!(OsuFriendAdd::new(&mut r).err().unwrap(), BanchoError::UnexpectedEof);
    let mut r = PacketReader::new(vec![1, 2]);
    let p = OsuMatchChangeSlot::new(&mut r);
    assert_eq!(p.id, 38);
    assert_eq!(r.remaining(), 2);
    assert_eq!(OsuLogout::new().id, 2);
    assert_eq!(OsuPing::new().id, 4);
}

#[test]
fn change_action_bytes_decode_back() {
    let mut body = vec![5u8];
    body.extend(write_string("editing"));
    body.extend(write_string(""));
    body.extend(write_u32(8));
    body.push(3);
    let mut r = PacketReader::new(body.clone());
    let p = OsuChangeAction::new(&mut r).unwrap();
    assert_eq!(p.to_bytes(), body);
    assert!(p.handle(player(false)).is_ok());
}

#[test]
fn write_packet_frames_a_body() {
    let body = write_i32(19);
    let bytes = write_packet(Packets::ChoProtocolVersion, &body);
    assert_eq!(bytes, vec![75, 0, 4, 0, 0, 0, 19, 0, 0, 0]);
    assert_eq!(write_packet(Packets::ChoChannelInfoEnd, &[]), vec![89, 0, 0, 0, 0, 0]);
    assert_eq!(bytes, frame(75, &body));
}

#[test]
fn scoreframe_encodes_back_to_its_bytes() {
    for v2 in [0u8, 1] {
        let mut bytes = scoreframe_prefix(v2);
        if v2 == 1 {
            bytes.extend(0.5f64.to_le_bytes());
            bytes.extend(2.0f64.to_le_bytes());
        }
        let sf = PacketReader::new(bytes.clone()).read_scoreframe().unwrap();
        assert_eq!(write_scoreframe(&sf), bytes);
    }
}

#[test]
fn match_encodes_and_decodes_back() {
    let mut statuses = vec![4i8, 1, 8];
    statuses.extend([1i8; 13]);
    let mut ids = vec![Some(10), None, Some(30)];
    ids.extend([None; 13]);
    let m = MultiplayerMatch {
        id: -3,
        in_progress: true,
        powerplay: -1,
        mods: 64,
        name: "room".to_string(),
        passwd: "secret".to_string(),
        map_name: "song".to_string(),
        map_id: 999,
        map_md5: "abc".to_string(),
        slot_statuses: statuses,
        slot_teams: vec![0; 16],
        slot_ids: ids,
        host_id: 10,
        mode: 1,
        win_condition: 2,
        team_type: 3,
        freemods: true,
        slot_mods: (0..16).collect(),
        seed: 7,
    };
    let bytes = write_match(&m);
    let mut r = PacketReader::new(bytes.clone());
    let back = r.read_match().unwrap();
    assert!(r.is_empty());
    assert_eq!(back.id, m.id);
    assert_eq!(back.in_progress, m.in_progress);
    assert_eq!(back.powerplay, m.powerplay);
    assert_eq!(back.passwd, m.passwd);
    assert_eq!(back.map_md5, m.map_md5);
    assert_eq!(back.slot_statuses, m.slot_statuses);
    assert_eq!(back.slot_ids, m.slot_ids);
    assert_eq!(back.slot_mods, m.slot_mods);
    assert_eq!((back.host_id, back.mode, back.win_condition, back.team_type, back.seed), (10, 1, 2, 3, 7));
    assert_eq!(write_match(&back), bytes);
}
