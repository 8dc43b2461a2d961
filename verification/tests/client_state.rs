use std::collections::HashSet;

use hazel::devices::AudioLoopCommand;
use hazel::models::markers::{Id, UserId, VoiceChannelId};
use hazel::models::voice::{
    VoiceChannel as ListedChannel, VoiceChannelMember as ListedMember, VoiceChannelUpdate,
    VoiceChannelUpdateMessage, VoiceChannelUserState,
};
use hazel::voice::{
    AudioSwitches, CollapsableCardState, NoiseReductionAlgorithm, ServerConnectionState, UpdateEffect,
};

fn user(v: i32) -> UserId {
    Id::new(v)
}

fn channel(v: i32) -> VoiceChannelId {
    Id::new(v)
}

fn listed_member(id: i32, name: &str, mic_off: bool) -> ListedMember {
    ListedMember {
        id: user(id),
        name: name.to_string(),
        state: VoiceChannelUserState { is_mic_off: mic_off, is_sound_off: false, is_streaming: false },
    }
}

fn listing() -> Vec<ListedChannel> {
    vec![
        ListedChannel { id: channel(1), name: "General".to_string(), members: vec![listed_member(7, "ann", false)] },
        ListedChannel {
            id: channel(2),
            name: "Games".to_string(),
            members: vec![listed_member(1, "me", false), listed_member(8, "bob", true)],
        },
    ]
}

fn connected() -> ServerConnectionState {
    let mut state = ServerConnectionState::new(user(1));
    state.set_channels(&listing());
    state
}

#[test]
fn noise_reduction_ids_and_labels() {
    assert_eq!(NoiseReductionAlgorithm::Disabled.id(), "disabled");
    assert_eq!(NoiseReductionAlgorithm::RNNoise.id(), "rnnoise");
    assert_eq!(NoiseReductionAlgorithm::DeepFilterNet.id(), "deepfilternet");
    assert_eq!(NoiseReductionAlgorithm::Disabled.label(), "Disabled");
    assert_eq!(NoiseReductionAlgorithm::RNNoise.label(), "RNNoise");
    assert_eq!(NoiseReductionAlgorithm::DeepFilterNet.label(), "DeepFilterNet");
}

#[test]
fn collapsable_card_toggles() {
    let mut card = CollapsableCardState::new();
    assert!(!card.is_collapsed);
    card.toggle();
    assert!(card.is_collapsed);
    card.toggle();
    assert!(!card.is_collapsed);
}

#[test]
fn microphone_on_switches_sound_on() {
    let mut s = AudioSwitches { is_capture_enabled: false, is_playback_enabled: false };
    let commands = s.toggle_capture();
    assert_eq!(s, AudioSwitches { is_capture_enabled: true, is_playback_enabled: true });
    assert_eq!(commands.len(), 2);
    assert!(matches!(commands[0], AudioLoopCommand::SetEnabledPlayback(true)));
    assert!(matches!(commands[1], AudioLoopCommand::SetEnabledCapture(true)));
}

#[test]
fn sound_off_switches_microphone_off() {
    let mut s = AudioSwitches::new();
    let commands = s.toggle_playback();
    assert_eq!(s, AudioSwitches { is_capture_enabled: false, is_playback_enabled: false });
    assert_eq!(commands.len(), 2);
    assert!(matches!(commands[0], AudioLoopCommand::SetEnabledCapture(false)));
    assert!(matches!(commands[1], AudioLoopCommand::SetEnabledPlayback(false)));
    let again = s.toggle_playback();
    assert_eq!(s, AudioSwitches { is_capture_enabled: false, is_playback_enabled: true });
    assert_eq!(again.len(), 1);
    assert!(matches!(again[0], AudioLoopCommand::SetEnabledPlayback(true)));
}

#[test]
fn microphone_twice_restores_switches() {
    let mut s = AudioSwitches::new();
    let first = s.toggle_capture();
    assert_eq!(first.len(), 1);
    assert!(matches!(first[0], AudioLoopCommand::SetEnabledCapture(false)));
    s.toggle_capture();
    assert_eq!(s, AudioSwitches::new());
}

#[test]
fn reported_user_state() {
    let s = AudioSwitches { is_capture_enabled: false, is_playback_enabled: true };
    assert_eq!(
        s.user_state(true),
        VoiceChannelUserState { is_mic_off: true, is_sound_off: false, is_streaming: true }
    );
}

#[test]
fn fresh_connection() {
    let state = ServerConnectionState::new(user(3));
    assert_eq!(state.user_id, user(3));
    assert_eq!(state.voice_channels().len(), 0);
    assert_eq!(state.switches(), AudioSwitches::new());
    assert_eq!(state.noise_reduction(), NoiseReductionAlgorithm::RNNoise);
    assert!(state.get_active_channel().is_none());
}

#[test]
fn listing_replaces_channels_inactive_and_silent() {
    let state = connected();
    let channels = state.voice_channels();
    assert_eq!(channels.len(), 2);
    assert_eq!(channels[1].name, "Games");
    assert!(!channels[1].is_active);
    assert_eq!(channels[1].members[1].name, "bob");
    assert!(channels[1].members[1].state.is_mic_off);
    assert!(!channels[1].members[1].is_talking);
    assert!(state.get_voice_channel(channel(3)).is_none());
    assert_eq!(state.get_voice_channel(channel(1)).unwrap().members[0].id, user(7));
}

#[test]
fn join_then_leave() {
    let mut state = connected();
    assert!(state.needs_join(channel(2)));
    assert_eq!(state.activate_channel(channel(2)), Some(1));
    assert!(!state.needs_join(channel(2)));
    assert!(state.needs_join(channel(1)));
    assert_eq!(state.get_active_channel().unwrap().id, channel(2));
    assert_eq!(state.active_member_count(), 2);
    assert!(state.leave_voice_channel());
    assert!(state.get_active_channel().is_none());
    let games = state.get_voice_channel(channel(2)).unwrap();
    assert_eq!(games.members.len(), 1);
    assert_eq!(games.members[0].id, user(8));
    assert!(!state.leave_voice_channel());
    assert_eq!(state.active_member_count(), 0);
}

#[test]
fn activating_unknown_channel_changes_nothing() {
    let mut state = connected();
    assert_eq!(state.activate_channel(channel(9)), None);
    assert!(state.get_active_channel().is_none());
}

#[test]
fn updates_applied_to_listing() {
    let mut state = connected();
    let unknown = VoiceChannelUpdate { channel_id: channel(5), message: VoiceChannelUpdateMessage::UserDisconnected(user(7)) };
    assert_eq!(state.apply_update(&unknown), UpdateEffect::UnknownChannel);

    let joined = VoiceChannelUpdate { channel_id: channel(1), message: VoiceChannelUpdateMessage::UserConnected(user(9)) };
    assert_eq!(state.apply_update(&joined), UpdateEffect::FetchUser(user(9)));
    assert_eq!(state.add_member(channel(1), user(9), "cid".to_string()), Some(false));
    assert_eq!(state.apply_update(&joined), UpdateEffect::Applied);
    let general = state.get_voice_channel(channel(1)).unwrap();
    assert_eq!(general.members.len(), 2);
    assert_eq!(general.members[1].name, "cid");
    assert_eq!(general.members[1].state, VoiceChannelUserState::default());

    let muted = VoiceChannelUserState { is_mic_off: true, is_sound_off: true, is_streaming: false };
    let changed = VoiceChannelUpdate { channel_id: channel(1), message: VoiceChannelUpdateMessage::UserStateUpdated((user(7), muted)) };
    assert_eq!(state.apply_update(&changed), UpdateEffect::Applied);
    assert_eq!(state.get_voice_channel(channel(1)).unwrap().members[0].state, muted);

    let left = VoiceChannelUpdate { channel_id: channel(1), message: VoiceChannelUpdateMessage::UserDisconnected(user(7)) };
    assert_eq!(state.apply_update(&left), UpdateEffect::Applied);
    let general = state.get_voice_channel(channel(1)).unwrap();
    assert_eq!(general.members.len(), 1);
    assert_eq!(general.members[0].id, user(9));
    assert_eq!(state.add_member(channel(4), user(10), "x".to_string()), None);
}

#[test]
fn member_added_to_active_channel_is_played() {
    let mut state = connected();
    state.activate_channel(channel(2));
    assert_eq!(state.add_member(channel(2), user(11), "dan".to_string()), Some(true));
}

#[test]
fn talking_indicator() {
    let mut state = connected();
    state.activate_channel(channel(2));
    assert!(state.refresh_talking(1, true));
    assert!(!state.refresh_talking(1, true));
    assert!(state.get_active_channel().unwrap().members[1].is_talking);
    assert!(state.refresh_talking(0, true));
    state.toggle_capture();
    assert!(!state.refresh_talking(0, true));
    assert!(!state.get_active_channel().unwrap().members[0].is_talking);
}

#[test]
fn switches_through_connection() {
    let mut state = connected();
    state.set_noise_reduction(NoiseReductionAlgorithm::Disabled);
    assert_eq!(state.noise_reduction(), NoiseReductionAlgorithm::Disabled);
    let commands = state.toggle_playback();
    assert_eq!(commands.len(), 2);
    assert_eq!(state.switches(), AudioSwitches { is_capture_enabled: false, is_playback_enabled: false });
    let commands = state.toggle_capture();
    assert_eq!(commands.len(), 2);
    assert_eq!(state.switches(), AudioSwitches::new());
}

#[test]
fn sound_twice_with_microphone_off_restores_switches() {
    let start = AudioSwitches { is_capture_enabled: false, is_playback_enabled: true };
    let mut s = start;
    s.toggle_playback();
    s.toggle_playback();
    assert_eq!(s, start);
}

#[test]
fn ids_order_and_hash_by_value() {
    let a: UserId = Id::new(1);
    let b: UserId = Id::new(2);
    assert!(a < b);
    assert_eq!(a.cmp(&b), std::cmp::Ordering::Less);
    assert_eq!(b.partial_cmp(&a), Some(std::cmp::Ordering::Greater));
    assert_eq!(a.cmp(&Id::new(1)), std::cmp::Ordering::Equal);
    let set: HashSet<UserId> = [a, b, Id::new(1)].into_iter().collect();
    assert_eq!(set.len(), 2);
}
