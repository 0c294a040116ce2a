use hmac::Mac;
use mchprs_core::geometry::BlockPos;
use mchprs_core::plot::{Gamemode, Player};
use mchprs_core::server::{
    BroadcastMessage, Delivery, Message, MinecraftServer, PrivMessage, WhitelistEntry, WhitelistReply,
    MSG_PLAYER_NOT_FOUND,
};
use mchprs_core::session::{
    handle_handshake, ForwardingError, HandshakeOutcome, LoginSession, LoginStep, NetworkState,
    MSG_VERSION_MISMATCH, PROTOCOL_VERSION,
};

fn player(uuid: u128, name: &str, x: i32, z: i32) -> Player {
    Player {
        uuid,
        entity_id: uuid as u32,
        username: name.to_string(),
        properties: Vec::new(),
        gamemode: Gamemode::Creative,
        pos: BlockPos::new(x, 64, z),
        on_ground: true,
        crouching: false,
        last_chunk_x: 0,
        last_chunk_z: 0,
        first_position: None,
        second_position: None,
    }
}

fn server() -> MinecraftServer {
    MinecraftServer::new(None, "<{username}> {message}".to_string())
}

fn delivered(d: &Option<Delivery>) -> (u128, i32, i32, bool) {
    match d {
        Some(Delivery::Spawn { x, z, player }) => (player.uuid, *x, *z, true),
        Some(Delivery::Send { x, z, message: PrivMessage::PlayerEnterPlot(p) }) => (p.uuid, *x, *z, false),
        Some(Delivery::Send { x, z, message: PrivMessage::PlayerTeleportOther(p, _) }) => (p.uuid, *x, *z, false),
        None => panic!("nothing delivered"),
    }
}

#[test]
fn joining_player_goes_to_own_plot() {
    let mut s = server();
    let d = s.handle_message(Message::PlayerJoined(player(1, "Alice", 10, 10)));
    assert_eq!(delivered(&d.delivery), (1, 0, 0, false));
    assert_eq!(d.ensure_user, Some((1, "Alice".to_string())));
    assert!(matches!(d.broadcast, Some(BroadcastMessage::PlayerJoinedInfo(ref i)) if i.uuid == 1 && i.username == "Alice"));
    let d = s.handle_message(Message::PlayerJoined(player(2, "Bob", 600, -5)));
    assert_eq!(delivered(&d.delivery), (2, 1, -1, true));
    assert_eq!(s.running_plots, vec![(0, 0), (1, -1)]);
}

#[test]
fn leaving_plot_is_rerouted_without_broadcast() {
    let mut s = server();
    s.handle_message(Message::PlayerJoined(player(1, "Alice", 10, 10)));
    let d = s.handle_message(Message::PlayerLeavePlot(player(1, "Alice", -10, 10)));
    assert!(d.broadcast.is_none());
    assert_eq!(delivered(&d.delivery), (1, -1, 0, true));
    let d = s.handle_message(Message::PlayerLeavePlot(player(1, "Alice", -20, 10)));
    assert_eq!(delivered(&d.delivery), (1, -1, 0, false));
    assert_eq!(s.online_players[0].plot_x, -1);
}

#[test]
fn unloaded_plot_respawns_on_next_entry() {
    let mut s = server();
    s.handle_message(Message::PlayerJoined(player(1, "Alice", 600, 10)));
    s.handle_message(Message::PlotUnload(1, 0));
    assert_eq!(s.running_plots, vec![(0, 0)]);
    let d = s.handle_message(Message::PlayerLeavePlot(player(1, "Alice", 600, 10)));
    assert_eq!(delivered(&d.delivery), (1, 1, 0, true));
}

#[test]
fn player_left_is_forgotten_and_broadcast() {
    let mut s = server();
    s.handle_message(Message::PlayerJoined(player(1, "Alice", 10, 10)));
    let d = s.handle_message(Message::PlayerLeft(1));
    assert!(matches!(d.broadcast, Some(BroadcastMessage::PlayerLeft(1))));
    assert!(s.online_players.is_empty());
}

#[test]
fn chat_uses_format() {
    let mut s = server();
    let d = s.handle_message(Message::ChatInfo(5, "Alice".to_string(), "hi".to_string()));
    match d.broadcast {
        Some(BroadcastMessage::Chat(uuid, line)) => {
            assert_eq!(uuid, 5);
            assert_eq!(line, "<Alice> hi");
        }
        _ => panic!("no chat broadcast"),
    }
}

#[test]
fn teleport_finds_player_by_prefix() {
    let mut s = server();
    s.handle_message(Message::PlayerJoined(player(1, "Alice", 600, 10)));
    let d = s.handle_message(Message::PlayerTeleportOther(player(2, "Bob", 5, 5), "aL".to_string()));
    assert_eq!(delivered(&d.delivery), (2, 1, 0, false));
    assert!(matches!(d.delivery, Some(Delivery::Send { message: PrivMessage::PlayerTeleportOther(_, ref n), .. }) if n == "aL"));
    let d = s.handle_message(Message::PlayerTeleportOther(player(2, "Bob", 5, 5), "zed".to_string()));
    assert_eq!(d.tell, Some((2, MSG_PLAYER_NOT_FOUND)));
    assert_eq!(delivered(&d.delivery), (2, 0, 0, false));
}

#[test]
fn gamemode_update_is_recorded_and_broadcast() {
    let mut s = server();
    s.handle_message(Message::PlayerJoined(player(1, "Alice", 10, 10)));
    let d = s.handle_message(Message::PlayerUpdateGamemode(1, Gamemode::Spectator));
    assert!(matches!(d.broadcast, Some(BroadcastMessage::PlayerUpdateGamemode(1, Gamemode::Spectator))));
    assert_eq!(s.online_players[0].gamemode, Gamemode::Spectator);
}

#[test]
fn whitelist_changes() {
    let mut s = server();
    let d = s.handle_message(Message::WhitelistAdd(1, "Alice".to_string()));
    assert_eq!(d.whitelist_replies, vec![WhitelistReply::Disabled]);
    let mut s = MinecraftServer::new(Some(Vec::new()), String::new());
    let d = s.handle_message(Message::WhitelistAdd(1, "Alice".to_string()));
    assert_eq!(d.whitelist_replies, vec![WhitelistReply::Added("Alice".to_string())]);
    s.handle_message(Message::WhitelistAdd(2, "Bob".to_string()));
    let d = s.handle_message(Message::WhitelistRemove(1));
    assert_eq!(d.whitelist_replies, vec![WhitelistReply::Removed("Alice".to_string())]);
    let d = s.handle_message(Message::WhitelistRemove(1));
    assert_eq!(d.whitelist_replies, vec![WhitelistReply::NotWhitelisted]);
    let names: Vec<&str> = s.whitelist.as_ref().unwrap().iter().map(|e| e.name.as_str()).collect();
    assert_eq!(names, vec!["Bob"]);
}

#[test]
fn shutdown_waits_for_every_plot() {
    let mut s = server();
    s.handle_message(Message::PlayerJoined(player(1, "Alice", 600, 10)));
    let d = s.handle_message(Message::Shutdown);
    assert!(matches!(d.broadcast, Some(BroadcastMessage::Shutdown)));
    assert!(d.await_unloads);
    s.handle_message(Message::PlotUnload(0, 0));
    assert!(!s.running_plots.is_empty());
    s.handle_message(Message::PlotUnload(1, 0));
    assert!(s.running_plots.is_empty());
}

#[test]
fn handshake_states() {
    assert_eq!(handle_handshake(1, 0), HandshakeOutcome::Next(NetworkState::Status));
    assert_eq!(handle_handshake(2, PROTOCOL_VERSION), HandshakeOutcome::Next(NetworkState::Login));
    assert_eq!(handle_handshake(2, PROTOCOL_VERSION - 1), HandshakeOutcome::VersionMismatch);
    assert_eq!(handle_handshake(3, PROTOCOL_VERSION), HandshakeOutcome::Ignored);
    assert_eq!(MSG_VERSION_MISMATCH, "Version mismatch, I'm on 1.20.4!");
}

fn signed(secret: &[u8], payload: &[u8]) -> Vec<u8> {
    let mut mac = hmac::Hmac::<sha2::Sha256>::new_from_slice(secret).unwrap();
    mac.update(payload);
    let mut data = mac.finalize().into_bytes().to_vec();
    data.extend_from_slice(payload);
    data
}

#[test]
fn forwarding_signature_checks() {
    let mut session = LoginSession::new();
    let step = session.handle_login_start("Alice".to_string(), true);
    let id = match step {
        LoginStep::AwaitForwarding { message_id } => message_id,
        LoginStep::Complete => panic!("forwarding expected"),
    };
    assert_eq!(session.forwarding_message_id, Some(id));
    let data = signed(b"SECRET-REDACTED", b"payload bytes");
    assert_eq!(session.check_forwarding(id, true, &data, b"SECRET-REDACTED"), Ok(()));
    assert_eq!(
        session.check_forwarding(id, true, &data, b"other"),
        Err(ForwardingError::BadSignature)
    );
    let mut tampered = data.clone();
    let last = tampered.len() - 1;
    tampered[last] ^= 1;
    assert_eq!(
        session.check_forwarding(id, true, &tampered, b"SECRET-REDACTED"),
        Err(ForwardingError::BadSignature)
    );
    assert_eq!(
        session.check_forwarding(id.wrapping_add(1), true, &data, b"SECRET-REDACTED"),
        Err(ForwardingError::UnknownMessageId)
    );
    assert_eq!(session.check_forwarding(id, false, &data, b"SECRET-REDACTED"), Err(ForwardingError::NotUnderstood));
    assert_eq!(session.check_forwarding(id, true, &data[..10], b"SECRET-REDACTED"), Err(ForwardingError::Malformed));
}

#[test]
fn login_without_forwarding_uses_offline_uuid_and_whitelist() {
    let mut session = LoginSession::new();
    assert_eq!(session.handle_login_start("Alice".to_string(), false), LoginStep::Complete);
    let wl = Some(vec![WhitelistEntry { uuid: 9, name: "Alice".to_string() }]);
    assert!(session.complete_login(&wl, 42));
    assert_eq!(session.uuid, Some(42));
    assert!(session.compressed);
    let mut other = LoginSession::new();
    other.handle_login_start("Mallory".to_string(), false);
    assert!(!other.complete_login(&wl, 7));
    assert!(other.complete_login(&None, 7));
}

#[test]
fn joining_player_gets_everyone_then_self() {
    let mut s = server();
    s.handle_message(Message::PlayerJoined(player(1, "Alice", 10, 10)));
    s.handle_message(Message::PlayerJoined(player(2, "Bob", 10, 10)));
    let list = s.player_list_for(&player(3, "Carol", 0, 0));
    let names: Vec<&str> = list.iter().map(|e| e.1.as_str()).collect();
    assert_eq!(names, vec!["Alice", "Bob", "Carol"]);
    assert_eq!(list[2].0, 3);
}

#[test]
fn unloading_keeps_other_plots_in_order() {
    let mut s = server();
    s.handle_message(Message::PlayerJoined(player(1, "Alice", 600, 10)));
    s.handle_message(Message::PlayerJoined(player(2, "Bob", -600, 10)));
    assert_eq!(s.running_plots, vec![(0, 0), (1, 0), (-2, 0)]);
    s.handle_message(Message::PlotUnload(1, 0));
    assert_eq!(s.running_plots, vec![(0, 0), (-2, 0)]);
    s.handle_message(Message::PlotUnload(5, 5));
    assert_eq!(s.running_plots, vec![(0, 0), (-2, 0)]);
}

#[test]
fn prefix_check() {
    assert!(mchprs_core::text::starts_with("alice", "al"));
    assert!(mchprs_core::text::starts_with("alice", ""));
    assert!(!mchprs_core::text::starts_with("al", "alice"));
    assert!(!mchprs_core::text::starts_with("alice", "ab"));
    assert!(mchprs_core::text::starts_with("é∂x", "é∂"));
}

#[test]
fn chat_format_with_repeated_placeholders() {
    let mut s = MinecraftServer::new(None, "{username}: {message} ({username})".to_string());
    match s.handle_message(Message::ChatInfo(1, "Bo".to_string(), "{username}".to_string())).broadcast {
        Some(BroadcastMessage::Chat(_, line)) => assert_eq!(line, "Bo: {username} (Bo)"),
        _ => panic!("no chat broadcast"),
    }
}
