use std::io::Read;

use dandelion::clientbound::{LevelDataChunkPacket, ServerIdentificationPacket, SpawnPlayerPacket};
use dandelion::codec::PacketWriter;
use dandelion::config::Config;
use dandelion::dmf_map::DmfMap;
use dandelion::player::{level_bytes, level_prefix, write_level_chunks, Player};
use dandelion::resolver::{frame_len, next_frame, ping_bytes, FrameStep, PacketResolver, Reply};
use dandelion::server::{generate_salt, salt_from_draws, Server};

fn field(s: &str) -> Vec<u8> {
    let mut b = s.as_bytes().to_vec();
    b.resize(64, b' ');
    b
}

fn identification(name: &str) -> Vec<u8> {
    let mut f = vec![0x00, 0x07];
    f.extend(field(name));
    f.extend(field("key"));
    f
}

fn world() -> DmfMap {
    let mut m = DmfMap::new(8, 9, 10, 64, 64, 64);
    m.set_block(1, 1, 1, 1);
    m
}

fn resolver() -> PacketResolver {
    let mut server = Server::new(Config::default());
    server.load_map("default".to_string(), world());
    PacketResolver::new(server)
}

fn drain(r: &mut PacketResolver) -> Vec<(Vec<i8>, Vec<u8>)> {
    let mut out = Vec::new();
    while let Some(item) = r.next_broadcast() {
        out.push(item);
    }
    out
}

fn join(r: &mut PacketResolver, name: &str) -> Reply {
    r.handle_packet(None, &identification(name))
}

#[test]
fn packet_wire_forms() {
    let mut sid = ServerIdentificationPacket::new("srv".to_string(), "motd".to_string());
    let mut w = PacketWriter::new();
    sid.write(&mut w);
    let bytes = w.into_inner();
    assert_eq!(bytes.len(), 131);
    assert_eq!(&bytes[..2], &[0x00, 0x07]);
    assert_eq!(&bytes[2..66], field("srv").as_slice());
    assert_eq!(bytes[130], 0x64);
    assert_eq!(sid.data(), &bytes);

    let mut spawn = SpawnPlayerPacket::new(1, "Bob".to_string(), 1, 2, 3, 4, 5);
    let mut w = PacketWriter::new();
    spawn.write(&mut w);
    let bytes = w.into_inner();
    assert_eq!(&bytes[..2], &[0x07, 0x01]);
    assert_eq!(&bytes[66..], &[0, 1, 0, 2, 0, 3, 4, 5]);
    assert_eq!(ping_bytes(), vec![0x01]);
}

#[test]
fn chunk_packet_pads_to_1024() {
    let mut p = LevelDataChunkPacket::new(3, vec![9, 9, 9], 100);
    let mut w = PacketWriter::new();
    p.write(&mut w);
    let bytes = w.into_inner();
    assert_eq!(bytes.len(), 1028);
    assert_eq!(&bytes[..6], &[0x03, 0x00, 0x03, 9, 9, 9]);
    assert_eq!(bytes[1027], 100);
}

#[test]
fn level_chunks_reassemble_and_gunzip() {
    let m = world();
    let player = Player::new(0, "Alice".to_string(), "default".to_string());
    let stream = player.send_to_level(&m).unwrap();
    assert_eq!(stream[0], 0x02);
    let n = (stream.len() - 8) / 1028;
    assert_eq!(stream.len(), 1 + 1028 * n + 7);
    let mut joined = Vec::new();
    for i in 0..n {
        let c = &stream[1 + 1028 * i..1 + 1028 * (i + 1)];
        assert_eq!(c[0], 0x03);
        let len = i16::from_be_bytes([c[1], c[2]]) as usize;
        assert!(len <= 1024);
        joined.extend_from_slice(&c[3..3 + len]);
    }
    assert_eq!(&stream[stream.len() - 7..], &[0x04, 0, 64, 0, 64, 0, 64]);
    let mut plain = Vec::new();
    flate2::read::GzDecoder::new(&joined[..]).read_to_end(&mut plain).unwrap();
    assert_eq!(plain, level_prefix(&m.blocks));
    assert_eq!(&plain[..4], &[0x00, 0x04, 0x00, 0x00]);
    assert_eq!(&plain[4..], m.blocks.as_slice());
}

#[test]
fn chunk_percentages() {
    let c: Vec<u8> = (0..2500u32).map(|i| i as u8).collect();
    let mut w = PacketWriter::new();
    write_level_chunks(&c, &mut w);
    let bytes = w.into_inner();
    assert_eq!(bytes.len(), 3 * 1028);
    assert_eq!(&bytes[1..3], &[0x04, 0x00]);
    assert_eq!(bytes[1027], 40);
    assert_eq!(bytes[2 * 1028 - 1], 81);
    assert_eq!(&bytes[2 * 1028 + 1..2 * 1028 + 3], &[0x01, 0xc4]);
    assert_eq!(bytes[3 * 1028 - 1], 100);
    let all = level_bytes(&c, 1, 2, 3);
    assert_eq!(all.len(), 1 + 3 * 1028 + 7);
}

#[test]
fn frame_lengths() {
    assert_eq!(frame_len(0x00), Some(130));
    assert_eq!(frame_len(0x05), Some(9));
    assert_eq!(frame_len(0x08), Some(10));
    assert_eq!(frame_len(0x0d), Some(66));
    assert_eq!(frame_len(0x42), None);
}

#[test]
fn join_flow() {
    let mut r = resolver();
    let reply = join(&mut r, "Alice");
    assert_eq!(reply.joined, Some(0));
    assert!(!reply.close);
    let out = reply.to_sender;
    assert_eq!(&out[..2], &[0x00, 0x07]);
    assert_eq!(&out[2..66], field("A classic server").as_slice());
    assert_eq!(&out[66..130], field("dandelion powered").as_slice());
    assert_eq!(out[130], 0x64);
    assert_eq!(out[131], 0x02);
    let n = (out.len() - 131 - 1 - 7 - 10 - 5 * 66) / 1028;
    assert!(n >= 1);
    for i in 0..n {
        assert_eq!(out[132 + 1028 * i], 0x03);
    }
    let fin = 132 + 1028 * n;
    assert_eq!(&out[fin..fin + 7], &[0x04, 0, 64, 0, 64, 0, 64]);
    assert_eq!(&out[fin + 7..fin + 17], &[0x08, 0xff, 0, 8, 0, 9, 0, 10, 0, 0]);
    assert_eq!(out.len(), fin + 17 + 5 * 66);
    let mut first = vec![0x0d, 0xff];
    first.extend(field("&fwelcome to this silly server!"));
    assert_eq!(&out[fin + 17..fin + 17 + 66], first.as_slice());
    assert_eq!(r.server.player_count(), 1);
}

#[test]
fn second_client_join() {
    let mut r = resolver();
    join(&mut r, "Alice");
    drain(&mut r);
    let reply = join(&mut r, "Bob");
    assert_eq!(reply.joined, Some(1));
    let out = reply.to_sender;
    let mut expected = vec![0x07, 0x00];
    expected.extend(field("Alice"));
    expected.extend([0, 8, 0, 9, 0, 10, 0, 0]);
    let pos = out.windows(expected.len()).position(|w| w == expected.as_slice());
    assert!(pos.is_some());
    let queued = drain(&mut r);
    assert_eq!(queued[0].0, vec![0]);
    assert_eq!(&queued[0].1[..2], &[0x07, 0x01]);
    assert_eq!(&queued[0].1[2..66], field("Bob").as_slice());
    let mut banner = vec![0x0d, 0xff];
    banner.extend(field("welcome Bob!"));
    assert_eq!(queued[1].1, banner);
}

#[test]
fn lowest_free_id_is_reused() {
    let mut r = resolver();
    join(&mut r, "A");
    join(&mut r, "B");
    join(&mut r, "C");
    r.despawn_player(1);
    assert_eq!(r.server.get_last_id(), Some(1));
    assert_eq!(join(&mut r, "D").joined, Some(1));
    assert_eq!(r.server.get_last_id(), Some(3));
}

#[test]
fn server_full() {
    let mut r = resolver();
    for i in 0..128 {
        assert_eq!(join(&mut r, "p").joined, Some(i as i8));
    }
    let reply = join(&mut r, "late");
    assert!(reply.close);
    assert_eq!(reply.joined, None);
    let mut expected = vec![0x0e];
    expected.extend(field("server full"));
    assert_eq!(reply.to_sender, expected);
    assert_eq!(r.server.get_last_id(), None);
}

#[test]
fn missing_world_closes() {
    let mut r = PacketResolver::new(Server::new(Config::default()));
    let reply = join(&mut r, "Alice");
    assert!(reply.close);
    assert_eq!(reply.to_sender.len(), 131 + 65);
    assert_eq!(reply.to_sender[131], 0x0e);
    assert_eq!(r.server.player_count(), 0);
}

#[test]
fn chat_relay() {
    let mut r = resolver();
    join(&mut r, "Alice");
    join(&mut r, "Bob");
    drain(&mut r);
    let mut frame = vec![0x0d, 0xff];
    frame.extend(field("hi"));
    let reply = r.handle_packet(Some(0), &frame);
    assert!(reply.to_sender.is_empty());
    let queued = drain(&mut r);
    assert_eq!(queued.len(), 1);
    let mut to = queued[0].0.clone();
    to.sort();
    assert_eq!(to, vec![0, 1]);
    let mut expected = vec![0x0d, 0x00];
    expected.extend(field("Alice: hi"));
    assert_eq!(queued[0].1, expected);
}

#[test]
fn block_edit() {
    let mut r = resolver();
    join(&mut r, "Alice");
    join(&mut r, "Bob");
    drain(&mut r);
    r.handle_packet(Some(0), &[0x05, 0x00, 0x10, 0x00, 0x20, 0x00, 0x30, 0x01, 0x02]);
    let queued = drain(&mut r);
    assert_eq!(queued.len(), 1);
    assert_eq!(queued[0].0, vec![1]);
    assert_eq!(queued[0].1, vec![0x06, 0x00, 0x10, 0x00, 0x20, 0x00, 0x30, 0x02]);
    let saved = r.server.save_all();
    let m = DmfMap::from_bytes(&saved[0].1).unwrap();
    assert_eq!(m.get_block(16, 32, 48), 2);
}

#[test]
fn break_edit_with_nonzero_block_type() {
    let mut r = resolver();
    join(&mut r, "Alice");
    join(&mut r, "Bob");
    drain(&mut r);
    r.handle_packet(Some(0), &[0x05, 0x00, 0x01, 0x00, 0x01, 0x00, 0x01, 0x00, 0x05]);
    let queued = drain(&mut r);
    assert_eq!(queued[0].1, vec![0x06, 0x00, 0x01, 0x00, 0x01, 0x00, 0x01, 0x00]);
    let saved = r.server.save_all();
    let m = DmfMap::from_bytes(&saved[0].1).unwrap();
    assert_eq!(m.get_block(1, 1, 1), 0);
}

#[test]
fn out_of_bounds_edit_is_silent() {
    let mut r = resolver();
    join(&mut r, "Alice");
    drain(&mut r);
    r.handle_packet(Some(0), &[0x05, 0x01, 0x00, 0x00, 0x00, 0x00, 0x00, 0x01, 0x02]);
    assert!(drain(&mut r).is_empty());
}

#[test]
fn movement_is_relayed_to_others() {
    let mut r = resolver();
    join(&mut r, "Alice");
    join(&mut r, "Bob");
    drain(&mut r);
    r.handle_packet(Some(1), &[0x08, 0xff, 0, 1, 0, 2, 0, 3, 4, 5]);
    let queued = drain(&mut r);
    assert_eq!(queued[0].0, vec![0]);
    assert_eq!(queued[0].1, vec![0x08, 0x01, 0, 1, 0, 2, 0, 3, 4, 5]);
    let bob = r.server.get_player(1).unwrap();
    assert_eq!(bob.get_pos(), (1, 2, 3, 4, 5));
}

#[test]
fn disconnect_broadcasts_despawn_and_goodbye() {
    let mut r = resolver();
    join(&mut r, "Alice");
    join(&mut r, "Bob");
    drain(&mut r);
    r.despawn_player(0);
    let queued = drain(&mut r);
    assert_eq!(queued.len(), 2);
    assert_eq!(queued[0].0, vec![1]);
    assert_eq!(queued[0].1, vec![0x0c, 0x00]);
    let mut goodbye = vec![0x0d, 0xff];
    goodbye.extend(field("goodbye Alice"));
    assert_eq!(queued[1].1, goodbye);
    assert!(!r.server.has_player(0));
}

#[test]
fn frames_out_of_turn_are_ignored() {
    let mut r = resolver();
    let reply = r.handle_packet(None, &[0x05, 0, 0, 0, 0, 0, 0, 1, 1]);
    assert!(reply.to_sender.is_empty() && !reply.close);
    let reply = r.handle_packet(None, &[0x00, 0x07]);
    assert!(reply.to_sender.is_empty());
    let reply = r.handle_packet(None, &[]);
    assert!(reply.to_sender.is_empty());
    join(&mut r, "Alice");
    drain(&mut r);
    let reply = r.handle_packet(Some(0), &identification("again"));
    assert!(reply.to_sender.is_empty());
    r.handle_packet(Some(0), &[0x42, 1, 2]);
    assert!(drain(&mut r).is_empty());
    assert_eq!(r.server.player_count(), 1);
}

#[test]
fn broadcast_recipients() {
    let mut r = resolver();
    join(&mut r, "A");
    join(&mut r, "B");
    join(&mut r, "C");
    let mut all = r.recipients(None);
    all.sort();
    assert_eq!(all, vec![0, 1, 2]);
    let mut some = r.recipients(Some(1));
    some.sort();
    assert_eq!(some, vec![0, 2]);
}

#[test]
fn player_helpers() {
    let mut p = Player::new(3, "Zed".to_string(), "default".to_string());
    assert_eq!(p.get_id(), 3);
    assert_eq!(p.get_name(), "Zed");
    assert_eq!(p.get_current_world(), "default");
    let tp = p.teleport(1, 2, 3, 4, 5);
    assert_eq!(tp, vec![0x08, 0xff, 0, 1, 0, 2, 0, 3, 5, 4]);
    assert_eq!(p.get_pos(), (1, 2, 3, 5, 4));
    let msg = p.send_message("hello");
    assert_eq!(&msg[..2], &[0x0d, 0xff]);
    assert_eq!(&msg[2..], field("hello").as_slice());
}

#[test]
fn salt_and_heartbeat() {
    let salt = generate_salt(16);
    assert_eq!(salt.len(), 16);
    assert!(salt.chars().all(|c| c.is_ascii_alphanumeric()));
    let mut r = resolver();
    join(&mut r, "A");
    let q = r.server.heartbeat_query();
    assert_eq!(q[0], ("port".to_string(), "25565".to_string()));
    assert_eq!(q[1], ("max".to_string(), "64".to_string()));
    assert_eq!(q[3], ("public".to_string(), "true".to_string()));
    assert_eq!(q[5].1, r.server.salt());
    assert_eq!(q[6], ("users".to_string(), "1".to_string()));
    assert_eq!(q[8], ("web".to_string(), "false".to_string()));
}

#[test]
fn config_defaults() {
    let c = Config::default();
    assert_eq!(c.addr, "0.0.0.0");
    assert_eq!(c.port, 25565);
    assert_eq!(c.default_map, "default");
    assert_eq!(c.max_players, 64);
}

#[test]
fn frame_splitting() {
    assert!(matches!(next_frame(&[]), FrameStep::NeedMore));
    assert!(matches!(next_frame(&[0x05, 0, 0]), FrameStep::NeedMore));
    assert!(matches!(next_frame(&[0x05, 0, 0, 0, 0, 0, 0, 1, 2, 0x0d]), FrameStep::Frame(9)));
    assert!(matches!(next_frame(&[0x42, 1]), FrameStep::Unknown));
}

#[test]
fn salt_spells_draws() {
    assert_eq!(salt_from_draws(&vec![0, 9, 10, 35, 36, 61]), "09azAZ");
    assert_eq!(salt_from_draws(&vec![]), "");
}

#[test]
fn level_is_sent_for_empty_world() {
    let m = DmfMap::new(0, 0, 0, 0, 0, 0);
    let p = Player::new(0, "A".to_string(), "default".to_string());
    let s = p.send_to_level(&m).unwrap();
    assert_eq!(s[0], 0x02);
    assert_eq!(s[1], 0x03);
    assert_eq!(s.len(), 1 + 1028 + 7);
}
