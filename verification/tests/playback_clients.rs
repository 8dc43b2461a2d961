use hazel::clients::{ActiveClients, AudioPacketCommand, AudioStreamingClientState};
use hazel::jitter::{DecodeAction, PushOutcome};

#[test]
fn new_client_starts_empty() {
    let c: AudioStreamingClientState<u32, &str> = AudioStreamingClientState::new(3, "ui");
    assert_eq!(c.user_id, 3);
}

#[test]
fn added_users_receive_their_packets() {
    let mut clients: ActiveClients<u32, &str> = ActiveClients::new();
    assert_eq!(clients.len(), 0);
    clients.process_command(AudioPacketCommand::AddClient((7, "seven")));
    clients.process_command(AudioPacketCommand::AddClient((8, "eight")));
    assert_eq!(clients.len(), 2);
    assert_eq!(clients.user_id(1), 8);
    assert_eq!(*clients.shared(0), "seven");
    assert_eq!(clients.push_packet(8, 1, false, 81), Some(PushOutcome::Stored));
    assert_eq!(clients.push_packet(9, 1, false, 91), None);
    assert!(matches!(clients.next_action(0, true), DecodeAction::Waiting));
    match clients.next_action(1, true) {
        DecodeAction::Play(p) => assert_eq!(p, 81),
        _ => panic!("expected the packet of user 8"),
    }
}

#[test]
fn adding_again_starts_afresh() {
    let mut clients: ActiveClients<u32, u8> = ActiveClients::new();
    clients.process_command(AudioPacketCommand::AddClient((7, 1)));
    clients.push_packet(7, 1, false, 10);
    clients.process_command(AudioPacketCommand::AddClient((7, 2)));
    assert_eq!(clients.len(), 1);
    assert_eq!(*clients.shared(0), 2);
    assert!(matches!(clients.next_action(0, true), DecodeAction::Waiting));
}

#[test]
fn removed_user_packets_are_dropped() {
    let mut clients: ActiveClients<u32, u8> = ActiveClients::new();
    clients.process_command(AudioPacketCommand::AddClient((1, 0)));
    clients.process_command(AudioPacketCommand::AddClient((2, 0)));
    clients.process_command(AudioPacketCommand::RemoveClient(1));
    assert_eq!(clients.len(), 1);
    assert_eq!(clients.user_id(0), 2);
    assert_eq!(clients.push_packet(1, 5, false, 50), None);
    clients.process_command(AudioPacketCommand::RemoveClient(1));
    assert_eq!(clients.len(), 1);
}

#[test]
fn released_speakers_are_dropped() {
    let mut clients: ActiveClients<u32, u8> = ActiveClients::new();
    for id in 1..=3 {
        clients.process_command(AudioPacketCommand::AddClient((id, 0)));
    }
    clients.deactivate(0);
    clients.deactivate(2);
    clients.retain_active();
    assert_eq!(clients.len(), 1);
    assert_eq!(clients.user_id(0), 2);
}
