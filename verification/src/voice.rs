//! The client's view of the server's voice channels, its microphone and
//! speaker switches, and the interface settings around them.

use crate::devices::AudioLoopCommand;
use crate::models::markers::{Id, UserId, VoiceChannelId};
use crate::models::voice::{VoiceChannelUpdate, VoiceChannelUpdateMessage, VoiceChannelUserState};
use vstd::prelude::*;

verus! {

/// Noise reduction applied to the microphone.
#[derive(Debug, Clone, Copy, PartialEq, Eq, Structural)]
pub enum NoiseReductionAlgorithm {
    Disabled,
    RNNoise,
    DeepFilterNet,
}

impl NoiseReductionAlgorithm {
    /// Stable identifier of the algorithm.
    pub fn id(&self) -> (res: &'static str)
        ensures
            match self {
                NoiseReductionAlgorithm::Disabled => res@ == "disabled"@,
                NoiseReductionAlgorithm::RNNoise => res@ == "rnnoise"@,
                NoiseReductionAlgorithm::DeepFilterNet => res@ == "deepfilternet"@,
            },
    {
        match self {
            NoiseReductionAlgorithm::Disabled => "disabled",
            NoiseReductionAlgorithm::RNNoise => "rnnoise",
            NoiseReductionAlgorithm::DeepFilterNet => "deepfilternet",
        }
    }

    /// Name shown to the user.
    pub fn label(&self) -> (res: &'static str)
        ensures
            match self {
                NoiseReductionAlgorithm::Disabled => res@ == "Disabled"@,
                NoiseReductionAlgorithm::RNNoise => res@ == "RNNoise"@,
                NoiseReductionAlgorithm::DeepFilterNet => res@ == "DeepFilterNet"@,
            },
    {
        match self {
            NoiseReductionAlgorithm::Disabled => "Disabled",
            NoiseReductionAlgorithm::RNNoise => "RNNoise",
            NoiseReductionAlgorithm::DeepFilterNet => "DeepFilterNet",
        }
    }
}

/// Whether a collapsible card is folded.
pub struct CollapsableCardState {
    pub is_collapsed: bool,
}

impl CollapsableCardState {
    /// An unfolded card.
    pub fn new() -> (res: Self)
        ensures
            !res.is_collapsed,
    {
        CollapsableCardState { is_collapsed: false }
    }

    /// Folds an unfolded card and unfolds a folded one.
    pub fn toggle(&mut self)
        ensures
            final(self).is_collapsed == !old(self).is_collapsed,
    {
        self.is_collapsed = !self.is_collapsed;
    }
}

/// Where the client is connected.
#[derive(Debug, Clone)]
pub struct RpcConnectionInfo {
    pub server_ip: String,
}

/// The microphone and speaker switches. The microphone is only on while
/// sound is on: switching the microphone on switches sound on, switching
/// sound off switches the microphone off.
#[derive(Debug, Clone, Copy, PartialEq, Eq, Structural)]
pub struct AudioSwitches {
    pub is_capture_enabled: bool,
    pub is_playback_enabled: bool,
}

/// The switches after the microphone is flipped.
pub open spec fn spec_toggle_capture(s: AudioSwitches) -> AudioSwitches {
    AudioSwitches {
        is_capture_enabled: !s.is_capture_enabled,
        is_playback_enabled: s.is_playback_enabled || !s.is_capture_enabled,
    }
}

/// The switches after sound is flipped.
pub open spec fn spec_toggle_playback(s: AudioSwitches) -> AudioSwitches {
    AudioSwitches {
        is_capture_enabled: s.is_capture_enabled && !s.is_playback_enabled,
        is_playback_enabled: !s.is_playback_enabled,
    }
}

impl AudioSwitches {
    /// Both on, as a fresh connection starts.
    pub fn new() -> (res: Self)
        ensures
            res.is_capture_enabled && res.is_playback_enabled,
    {
        AudioSwitches { is_capture_enabled: true, is_playback_enabled: true }
    }

    /// Flips the microphone; returns the commands for the audio loop, in
    /// the order they are to be sent.
    pub fn toggle_capture(&mut self) -> (commands: Vec<AudioLoopCommand>)
        ensures
            *final(self) == spec_toggle_capture(*old(self)),
            !old(self).is_playback_enabled && final(self).is_capture_enabled ==> {
                &&& commands@.len() == 2
                &&& commands@[0] matches AudioLoopCommand::SetEnabledPlayback(true)
                &&& commands@[1] matches AudioLoopCommand::SetEnabledCapture(v) && v == final(self).is_capture_enabled
            },
            !(!old(self).is_playback_enabled && final(self).is_capture_enabled) ==> {
                &&& commands@.len() == 1
                &&& commands@[0] matches AudioLoopCommand::SetEnabledCapture(v) && v == final(self).is_capture_enabled
            },
    {
        let mut commands: Vec<AudioLoopCommand> = Vec::new();
        self.is_capture_enabled = !self.is_capture_enabled;
        if !self.is_playback_enabled && self.is_capture_enabled {
            self.is_playback_enabled = true;
            commands.push(AudioLoopCommand::SetEnabledPlayback(true));
        }
        commands.push(AudioLoopCommand::SetEnabledCapture(self.is_capture_enabled));
        commands
    }

    /// Flips sound; returns the commands for the audio loop, in the order
    /// they are to be sent.
    pub fn toggle_playback(&mut self) -> (commands: Vec<AudioLoopCommand>)
        ensures
            *final(self) == spec_toggle_playback(*old(self)),
            !final(self).is_playback_enabled ==> {
                &&& commands@.len() == 2
                &&& commands@[0] matches AudioLoopCommand::SetEnabledCapture(false)
                &&& commands@[1] matches AudioLoopCommand::SetEnabledPlayback(false)
            },
            final(self).is_playback_enabled ==> {
                &&& commands@.len() == 1
                &&& commands@[0] matches AudioLoopCommand::SetEnabledPlayback(true)
            },
    {
        let mut commands: Vec<AudioLoopCommand> = Vec::new();
        self.is_playback_enabled = !self.is_playback_enabled;
        if !self.is_playback_enabled {
            self.is_capture_enabled = false;
            commands.push(AudioLoopCommand::SetEnabledCapture(false));
        }
        commands.push(AudioLoopCommand::SetEnabledPlayback(self.is_playback_enabled));
        commands
    }

    /// The state reported to the server.
    pub fn user_state(&self, is_streaming: bool) -> (s: VoiceChannelUserState)
        ensures
            s.is_sound_off == !self.is_playback_enabled,
            s.is_mic_off == !self.is_capture_enabled,
            s.is_streaming == is_streaming,
    {
        VoiceChannelUserState {
            is_sound_off: !self.is_playback_enabled,
            is_mic_off: !self.is_capture_enabled,
            is_streaming,
        }
    }
}

/// The microphone is never on while sound is off: both switches keep it so.
pub proof fn lemma_capture_implies_playback(s: AudioSwitches)
    requires
        s.is_capture_enabled ==> s.is_playback_enabled,
    ensures
        spec_toggle_capture(s).is_capture_enabled ==> spec_toggle_capture(s).is_playback_enabled,
        spec_toggle_playback(s).is_capture_enabled ==> spec_toggle_playback(s).is_playback_enabled,
{
}

/// Flipping the microphone twice while sound is on restores both switches.
pub proof fn lemma_toggle_capture_twice(s: AudioSwitches)
    requires
        s.is_playback_enabled,
    ensures
        spec_toggle_capture(spec_toggle_capture(s)) == s,
{
}

/// Flipping sound twice while the microphone is off restores both switches.
pub proof fn lemma_toggle_playback_twice(s: AudioSwitches)
    requires
        !s.is_capture_enabled,
    ensures
        spec_toggle_playback(spec_toggle_playback(s)) == s,
{
}


/// A member of a voice channel as the client shows it.
#[derive(Debug, Clone)]
pub struct VoiceChannelMember {
    pub id: UserId,
    pub name: String,
    pub state: VoiceChannelUserState,
    pub is_talking: bool,
}

/// A voice channel as the client shows it.
#[derive(Debug)]
pub struct VoiceChannel {
    pub id: VoiceChannelId,
    pub name: String,
    pub is_active: bool,
    pub members: Vec<VoiceChannelMember>,
}

/// Abstract content of a member entry.
pub struct MemberView {
    pub id: int,
    pub name: Seq<char>,
    pub state: VoiceChannelUserState,
    pub is_talking: bool,
}

/// Abstract content of a channel entry.
pub struct ChannelView {
    pub id: int,
    pub name: Seq<char>,
    pub is_active: bool,
    pub members: Seq<MemberView>,
}

impl VoiceChannelMember {
    pub open spec fn view(&self) -> MemberView {
        MemberView {
            id: self.id.value as int,
            name: self.name@,
            state: self.state,
            is_talking: self.is_talking,
        }
    }
}

pub open spec fn members_view(s: Seq<VoiceChannelMember>) -> Seq<MemberView> {
    s.map_values(|m: VoiceChannelMember| m@)
}

impl VoiceChannel {
    pub open spec fn view(&self) -> ChannelView {
        ChannelView {
            id: self.id.value as int,
            name: self.name@,
            is_active: self.is_active,
            members: members_view(self.members@),
        }
    }
}

pub open spec fn channels_view(s: Seq<VoiceChannel>) -> Seq<ChannelView> {
    s.map_values(|c: VoiceChannel| c@)
}

/// The members of `s` except user `id`.
pub open spec fn without_member(s: Seq<MemberView>, id: int) -> Seq<MemberView>
    decreases s.len(),
{
    if s.len() == 0 {
        s
    } else {
        let rest = without_member(s.drop_last(), id);
        if s.last().id == id {
            rest
        } else {
            rest.push(s.last())
        }
    }
}

/// First index at or after `i` of an active channel.
pub open spec fn first_active(s: Seq<ChannelView>, i: int) -> Option<int>
    decreases s.len() - i,
{
    if i < 0 || i >= s.len() {
        None
    } else if s[i].is_active {
        Some(i)
    } else {
        first_active(s, i + 1)
    }
}

/// First index at or after `i` of the channel with id `id`.
pub open spec fn first_channel(s: Seq<ChannelView>, id: int, i: int) -> Option<int>
    decreases s.len() - i,
{
    if i < 0 || i >= s.len() {
        None
    } else if s[i].id == id {
        Some(i)
    } else {
        first_channel(s, id, i + 1)
    }
}

/// First index at or after `i` of user `id` among `s`.
pub open spec fn first_member(s: Seq<MemberView>, id: int, i: int) -> Option<int>
    decreases s.len() - i,
{
    if i < 0 || i >= s.len() {
        None
    } else if s[i].id == id {
        Some(i)
    } else {
        first_member(s, id, i + 1)
    }
}

proof fn lemma_first_active_range(s: Seq<ChannelView>, i: int)
    requires
        0 <= i,
    ensures
        first_active(s, i) matches Some(k) ==> i <= k < s.len() && s[k].is_active,
        first_active(s, i) is None ==> forall|k: int| i <= k < s.len() ==> !(#[trigger] s[k]).is_active,
    decreases s.len() - i,
{
    if 0 <= i < s.len() {
        lemma_first_active_range(s, i + 1);
    }
}

proof fn lemma_first_channel_range(s: Seq<ChannelView>, id: int, i: int)
    ensures
        first_channel(s, id, i) matches Some(k) ==> i <= k < s.len() && s[k].id == id,
    decreases s.len() - i,
{
    if 0 <= i < s.len() {
        lemma_first_channel_range(s, id, i + 1);
    }
}

proof fn lemma_first_member_range(s: Seq<MemberView>, id: int, i: int)
    requires
        0 <= i,
    ensures
        first_member(s, id, i) matches Some(k) ==> i <= k < s.len() && s[k].id == id,
        first_member(s, id, i) is None ==> forall|k: int| i <= k < s.len() ==> (#[trigger] s[k]).id != id,
    decreases s.len() - i,
{
    if 0 <= i < s.len() {
        lemma_first_member_range(s, id, i + 1);
    }
}

/// At most one channel is active.
pub open spec fn at_most_one_active(s: Seq<ChannelView>) -> bool {
    forall|i: int, j: int|
        0 <= i < s.len() && 0 <= j < s.len() && (#[trigger] s[i]).is_active && (#[trigger] s[j]).is_active
            ==> i == j
}

/// The channel list after a fresh listing from the server: nothing active,
/// nobody talking.
pub open spec fn spec_listed(infos: Seq<crate::models::voice::VoiceChannel>) -> Seq<ChannelView> {
    infos.map_values(
        |c: crate::models::voice::VoiceChannel|
            ChannelView {
                id: c.id.value as int,
                name: c.name@,
                is_active: false,
                members: c.members@.map_values(
                    |m: crate::models::voice::VoiceChannelMember|
                        MemberView {
                            id: m.id.value as int,
                            name: m.name@,
                            state: m.state,
                            is_talking: false,
                        },
                ),
            },
    )
}

/// What an update of a voice channel asks of the caller.
#[derive(Debug, Clone, Copy, PartialEq, Eq)]
pub enum UpdateEffect {
    /// The list was updated, or nothing needed doing.
    Applied,
    /// The channel is unknown: the list must be fetched again.
    UnknownChannel,
    /// A user joined who is not listed: their details must be fetched and
    /// added with `add_member`.
    FetchUser(UserId),
}

fn copy_member(m: &VoiceChannelMember) -> (res: VoiceChannelMember)
    ensures
        res@ == m@,
{
    VoiceChannelMember { id: m.id, name: m.name.clone(), state: m.state, is_talking: m.is_talking }
}

fn find_member(members: &Vec<VoiceChannelMember>, id: UserId) -> (res: Option<usize>)
    ensures
        match res {
            Some(k) => first_member(members_view(members@), id.value as int, 0) == Some(k as int),
            None => first_member(members_view(members@), id.value as int, 0) is None,
        },
{
    let mut i: usize = 0;
    while i < members.len()
        invariant
            0 <= i <= members@.len(),
            first_member(members_view(members@), id.value as int, 0) == first_member(
                members_view(members@),
                id.value as int,
                i as int,
            ),
        decreases members@.len() - i,
    {
        if members[i].id.value == id.value {
            return Some(i);
        }
        i = i + 1;
    }
    None
}

fn remove_member(members: &mut Vec<VoiceChannelMember>, id: UserId)
    ensures
        members_view(final(members)@) == without_member(members_view(old(members)@), id.value as int),
{
    let mut kept: Vec<VoiceChannelMember> = Vec::new();
    let mut i: usize = 0;
    while i < members.len()
        invariant
            0 <= i <= members@.len(),
            members@ == old(members)@,
            members_view(kept@) == without_member(
                members_view(members@.take(i as int)),
                id.value as int,
            ),
        decreases members@.len() - i,
    {
        let ghost prev = kept@;
        proof {
            assert(members_view(members@.take(i + 1)).drop_last() =~= members_view(
                members@.take(i as int),
            ));
        }
        if members[i].id.value != id.value {
            kept.push(copy_member(&members[i]));
            assert(members_view(kept@) =~= members_view(prev).push(members@[i as int]@));
        }
        i = i + 1;
    }
    assert(members@.take(members@.len() as int) =~= members@);
    *members = kept;
}

/// The client's state of one server connection: who it is logged in as,
/// the voice channels, and its switches.
pub struct ServerConnectionState {
    pub user_id: UserId,
    voice_channels: Vec<VoiceChannel>,
    switches: AudioSwitches,
    noise_reduction: NoiseReductionAlgorithm,
}

impl ServerConnectionState {
    pub closed spec fn channels(&self) -> Seq<ChannelView> {
        channels_view(self.voice_channels@)
    }

    pub closed spec fn spec_user_id(&self) -> UserId {
        self.user_id
    }

    pub closed spec fn spec_switches(&self) -> AudioSwitches {
        self.switches
    }

    pub closed spec fn spec_noise_reduction(&self) -> NoiseReductionAlgorithm {
        self.noise_reduction
    }

    /// At most one channel is active.
    pub open spec fn wf(&self) -> bool {
        at_most_one_active(self.channels())
    }

    /// A fresh connection: no channels, both switches on, RNNoise.
    pub fn new(user_id: UserId) -> (res: Self)
        ensures
            res.wf(),
            res.spec_user_id() == user_id,
            res.channels() == Seq::<ChannelView>::empty(),
            res.spec_switches() == (AudioSwitches { is_capture_enabled: true, is_playback_enabled: true }),
            res.spec_noise_reduction() == NoiseReductionAlgorithm::RNNoise,
    {
        let res = ServerConnectionState {
            user_id,
            voice_channels: Vec::new(),
            switches: AudioSwitches::new(),
            noise_reduction: NoiseReductionAlgorithm::RNNoise,
        };
        assert(res.channels() =~= Seq::<ChannelView>::empty());
        res
    }

    /// The noise reduction in use.
    pub fn noise_reduction(&self) -> (res: NoiseReductionAlgorithm)
        ensures
            res == self.spec_noise_reduction(),
    {
        self.noise_reduction
    }

    /// Chooses the noise reduction.
    pub fn set_noise_reduction(&mut self, noise_reduction: NoiseReductionAlgorithm)
        ensures
            final(self).spec_noise_reduction() == noise_reduction,
            final(self).channels() == old(self).channels(),
            final(self).spec_switches() == old(self).spec_switches(),
            final(self).spec_user_id() == old(self).spec_user_id(),
    {
        self.noise_reduction = noise_reduction;
    }

    /// The microphone and sound switches.
    pub fn switches(&self) -> (res: AudioSwitches)
        ensures
            res == self.spec_switches(),
    {
        self.switches
    }

    /// The channels, in the server's order.
    pub fn voice_channels(&self) -> (res: &Vec<VoiceChannel>)
        ensures
            channels_view(res@) == self.channels(),
    {
        &self.voice_channels
    }

    fn find_active(&self) -> (res: Option<usize>)
        ensures
            match res {
                Some(k) => first_active(self.channels(), 0) == Some(k as int),
                None => first_active(self.channels(), 0) is None,
            },
    {
        let mut i: usize = 0;
        while i < self.voice_channels.len()
            invariant
                0 <= i <= self.voice_channels@.len(),
                first_active(self.channels(), 0) == first_active(self.channels(), i as int),
            decreases self.voice_channels@.len() - i,
        {
            if self.voice_channels[i].is_active {
                return Some(i);
            }
            i = i + 1;
        }
        None
    }

    /// The channel the user is in, if any.
    pub fn get_active_channel(&self) -> (res: Option<&VoiceChannel>)
        ensures
            match first_active(self.channels(), 0) {
                Some(i) => res matches Some(c) && c@ == self.channels()[i],
                None => res is None,
            },
    {
        proof {
            lemma_first_active_range(self.channels(), 0);
        }
        match self.find_active() {
            Some(i) => Some(&self.voice_channels[i]),
            None => None,
        }
    }

    fn find_channel(&self, id: VoiceChannelId) -> (res: Option<usize>)
        ensures
            match res {
                Some(k) => first_channel(self.channels(), id.value as int, 0) == Some(k as int),
                None => first_channel(self.channels(), id.value as int, 0) is None,
            },
    {
        let mut i: usize = 0;
        while i < self.voice_channels.len()
            invariant
                0 <= i <= self.voice_channels@.len(),
                first_channel(self.channels(), id.value as int, 0) == first_channel(
                    self.channels(),
                    id.value as int,
                    i as int,
                ),
            decreases self.voice_channels@.len() - i,
        {
            if self.voice_channels[i].id.value == id.value {
                return Some(i);
            }
            i = i + 1;
        }
        None
    }

    /// The channel with id `id`, if listed.
    pub fn get_voice_channel(&self, id: VoiceChannelId) -> (res: Option<&VoiceChannel>)
        ensures
            match first_channel(self.channels(), id.value as int, 0) {
                Some(i) => res matches Some(c) && c@ == self.channels()[i],
                None => res is None,
            },
    {
        proof {
            lemma_first_channel_range(self.channels(), id.value as int, 0);
        }
        match self.find_channel(id) {
            Some(i) => Some(&self.voice_channels[i]),
            None => None,
        }
    }

    /// Whether joining channel `id` needs a request: not when the user is
    /// already in it.
    pub fn needs_join(&self, id: VoiceChannelId) -> (res: bool)
        ensures
            res == !(first_active(self.channels(), 0) matches Some(i) && self.channels()[i].id
                == id.value as int),
    {
        proof {
            lemma_first_active_range(self.channels(), 0);
        }
        match self.find_active() {
            Some(i) => self.voice_channels[i].id.value != id.value,
            None => true,
        }
    }

    /// Number of members of the active channel, 0 when there is none.
    pub fn active_member_count(&self) -> (n: usize)
        ensures
            n == match first_active(self.channels(), 0) {
                Some(i) => self.channels()[i].members.len(),
                None => 0,
            },
    {
        proof {
            lemma_first_active_range(self.channels(), 0);
        }
        match self.find_active() {
            Some(i) => self.voice_channels[i].members.len(),
            None => 0,
        }
    }

    /// Refreshes whether member `k` of the active channel is talking, from
    /// what their playback (or, for the user, the sender) reports; the user
    /// with the microphone off is shown silent. Returns whether the display
    /// needs a refresh: never for the silenced user, otherwise when the
    /// value changed.
    pub fn refresh_talking(&mut self, k: usize, fetched: bool) -> (changed: bool)
        requires
            old(self).wf(),
            k < (match first_active(old(self).channels(), 0) {
                Some(i) => old(self).channels()[i].members.len(),
                None => 0,
            }),
        ensures
            final(self).wf(),
            final(self).spec_switches() == old(self).spec_switches(),
            final(self).spec_user_id() == old(self).spec_user_id(),
            final(self).spec_noise_reduction() == old(self).spec_noise_reduction(),
            ({
                let i = first_active(old(self).channels(), 0)->0;
                let ch = old(self).channels()[i];
                let m = ch.members[k as int];
                let silenced = m.id == old(self).spec_user_id().value as int
                    && !old(self).spec_switches().is_capture_enabled;
                let talking = if silenced {
                    false
                } else {
                    fetched
                };
                &&& final(self).channels() == old(self).channels().update(
                    i,
                    ChannelView {
                        members: ch.members.update(k as int, MemberView { is_talking: talking, ..m }),
                        ..ch
                    },
                )
                &&& changed == (!silenced && talking != m.is_talking)
            }),
    {
        proof {
            lemma_first_active_range(self.channels(), 0);
        }
        let i = match self.find_active() {
            Some(i) => i,
            None => {
                return false;
            },
        };
        let ghost ch = old(self).channels()[i as int];
        let ghost m = ch.members[k as int];
        let was = self.voice_channels[i].members[k].is_talking;
        let silenced = self.voice_channels[i].members[k].id.value == self.user_id.value
            && !self.switches.is_capture_enabled;
        let talking = if silenced {
            false
        } else {
            fetched
        };
        self.voice_channels[i].members[k].is_talking = talking;
        assert(members_view(self.voice_channels@[i as int].members@) =~= ch.members.update(
            k as int,
            MemberView { is_talking: talking, ..m },
        ));
        assert(self.channels() =~= old(self).channels().update(
            i as int,
            ChannelView { members: ch.members.update(k as int, MemberView { is_talking: talking, ..m }), ..ch },
        ));
        let ghost t = self.channels();
        assert forall|a: int, b: int|
            0 <= a < t.len() && 0 <= b < t.len() && (#[trigger] t[a]).is_active
                && (#[trigger] t[b]).is_active implies a == b by {
            assert(old(self).channels()[a].is_active);
            assert(old(self).channels()[b].is_active);
        }
        !silenced && talking != was
    }

    /// Flips the microphone; returns the commands for the audio loop.
    pub fn toggle_capture(&mut self) -> (commands: Vec<AudioLoopCommand>)
        ensures
            final(self).spec_switches() == spec_toggle_capture(old(self).spec_switches()),
            !old(self).spec_switches().is_playback_enabled && final(self).spec_switches().is_capture_enabled
                ==> {
                &&& commands@.len() == 2
                &&& commands@[0] matches AudioLoopCommand::SetEnabledPlayback(true)
                &&& commands@[1] matches AudioLoopCommand::SetEnabledCapture(v) && v
                    == final(self).spec_switches().is_capture_enabled
            },
            !(!old(self).spec_switches().is_playback_enabled && final(self).spec_switches().is_capture_enabled)
                ==> {
                &&& commands@.len() == 1
                &&& commands@[0] matches AudioLoopCommand::SetEnabledCapture(v) && v
                    == final(self).spec_switches().is_capture_enabled
            },
            final(self).channels() == old(self).channels(),
            final(self).spec_user_id() == old(self).spec_user_id(),
            final(self).spec_noise_reduction() == old(self).spec_noise_reduction(),
    {
        self.switches.toggle_capture()
    }

    /// Flips sound; returns the commands for the audio loop.
    pub fn toggle_playback(&mut self) -> (commands: Vec<AudioLoopCommand>)
        ensures
            final(self).spec_switches() == spec_toggle_playback(old(self).spec_switches()),
            !final(self).spec_switches().is_playback_enabled ==> {
                &&& commands@.len() == 2
                &&& commands@[0] matches AudioLoopCommand::SetEnabledCapture(false)
                &&& commands@[1] matches AudioLoopCommand::SetEnabledPlayback(false)
            },
            final(self).spec_switches().is_playback_enabled ==> {
                &&& commands@.len() == 1
                &&& commands@[0] matches AudioLoopCommand::SetEnabledPlayback(true)
            },
            final(self).channels() == old(self).channels(),
            final(self).spec_user_id() == old(self).spec_user_id(),
            final(self).spec_noise_reduction() == old(self).spec_noise_reduction(),
    {
        self.switches.toggle_playback()
    }

    /// Replaces the channels with a fresh listing from the server: nothing
    /// active, nobody talking.
    pub fn set_channels(&mut self, infos: &Vec<crate::models::voice::VoiceChannel>)
        ensures
            final(self).wf(),
            final(self).channels() == spec_listed(infos@),
            final(self).spec_switches() == old(self).spec_switches(),
            final(self).spec_user_id() == old(self).spec_user_id(),
            final(self).spec_noise_reduction() == old(self).spec_noise_reduction(),
    {
        let mut channels: Vec<VoiceChannel> = Vec::new();
        let mut i: usize = 0;
        while i < infos.len()
            invariant
                0 <= i <= infos@.len(),
                channels@.len() == i,
                forall|k: int| 0 <= k < i ==> (#[trigger] channels@[k])@ == spec_listed(infos@)[k],
            decreases infos@.len() - i,
        {
            let info = &infos[i];
            let mut members: Vec<VoiceChannelMember> = Vec::new();
            let mut j: usize = 0;
            while j < info.members.len()
                invariant
                    0 <= j <= info.members@.len(),
                    members@.len() == j,
                    forall|k: int|
                        0 <= k < j ==> (#[trigger] members@[k])@ == spec_listed(infos@)[i as int].members[k],
                    info == infos@[i as int],
                    i < infos@.len(),
                decreases info.members@.len() - j,
            {
                let m = &info.members[j];
                members.push(
                    VoiceChannelMember {
                        id: m.id,
                        name: m.name.clone(),
                        state: m.state,
                        is_talking: false,
                    },
                );
                j = j + 1;
            }
            assert(members_view(members@) =~= spec_listed(infos@)[i as int].members);
            channels.push(
                VoiceChannel { id: info.id, name: info.name.clone(), is_active: false, members },
            );
            i = i + 1;
        }
        self.voice_channels = channels;
        assert(self.channels() =~= spec_listed(infos@));
    }

    /// Marks the channel with id `id` as the one the user is in; the caller
    /// has just listed the channels afresh, so no other channel is active.
    /// Returns its index.
    pub fn activate_channel(&mut self, id: VoiceChannelId) -> (res: Option<usize>)
        requires
            forall|k: int| 0 <= k < old(self).channels().len() ==> !(#[trigger] old(self).channels()[k]).is_active,
        ensures
            final(self).wf(),
            match first_channel(old(self).channels(), id.value as int, 0) {
                Some(i) => res == Some(i as usize) && final(self).channels() == old(self).channels().update(
                    i,
                    ChannelView { is_active: true, ..old(self).channels()[i] },
                ),
                None => res is None && final(self).channels() == old(self).channels(),
            },
            final(self).spec_switches() == old(self).spec_switches(),
            final(self).spec_user_id() == old(self).spec_user_id(),
            final(self).spec_noise_reduction() == old(self).spec_noise_reduction(),
    {
        proof {
            lemma_first_channel_range(self.channels(), id.value as int, 0);
        }
        match self.find_channel(id) {
            Some(i) => {
                self.voice_channels[i].is_active = true;
                assert(self.channels() =~= old(self).channels().update(
                    i as int,
                    ChannelView { is_active: true, ..old(self).channels()[i as int] },
                ));
                Some(i)
            },
            None => None,
        }
    }

    /// Leaves the active channel: it is no longer active and the user is no
    /// longer among its members. Returns whether there was one.
    pub fn leave_voice_channel(&mut self) -> (left: bool)
        requires
            old(self).wf(),
        ensures
            final(self).wf(),
            match first_active(old(self).channels(), 0) {
                Some(i) => left && final(self).channels() == old(self).channels().update(
                    i,
                    ChannelView {
                        is_active: false,
                        members: without_member(
                            old(self).channels()[i].members,
                            old(self).spec_user_id().value as int,
                        ),
                        ..old(self).channels()[i]
                    },
                ),
                None => !left && final(self).channels() == old(self).channels(),
            },
            final(self).spec_switches() == old(self).spec_switches(),
            final(self).spec_user_id() == old(self).spec_user_id(),
            final(self).spec_noise_reduction() == old(self).spec_noise_reduction(),
    {
        proof {
            lemma_first_active_range(self.channels(), 0);
        }
        match self.find_active() {
            Some(i) => {
                let user_id = self.user_id;
                self.voice_channels[i].is_active = false;
                remove_member(&mut self.voice_channels[i].members, user_id);
                let ghost t = self.channels();
                assert(t =~= old(self).channels().update(
                    i as int,
                    ChannelView {
                        is_active: false,
                        members: without_member(
                            old(self).channels()[i as int].members,
                            old(self).spec_user_id().value as int,
                        ),
                        ..old(self).channels()[i as int]
                    },
                ));
                assert forall|a: int, b: int|
                    0 <= a < t.len() && 0 <= b < t.len() && (#[trigger] t[a]).is_active
                        && (#[trigger] t[b]).is_active implies a == b by {
                    assert(old(self).channels()[a].is_active);
                    assert(old(self).channels()[b].is_active);
                }
                true
            },
            None => false,
        }
    }

    /// Applies a change announced by the server to the channel list.
    pub fn apply_update(&mut self, update: &VoiceChannelUpdate) -> (effect: UpdateEffect)
        requires
            old(self).wf(),
        ensures
            final(self).wf(),
            final(self).spec_switches() == old(self).spec_switches(),
            final(self).spec_user_id() == old(self).spec_user_id(),
            final(self).spec_noise_reduction() == old(self).spec_noise_reduction(),
            match first_channel(old(self).channels(), update.channel_id.value as int, 0) {
                None => effect == UpdateEffect::UnknownChannel && final(self).channels() == old(
                    self,
                ).channels(),
                Some(c) => {
                    let ch = old(self).channels()[c];
                    match update.message {
                        VoiceChannelUpdateMessage::UserConnected(u) => final(self).channels()
                            == old(self).channels() && if first_member(
                            ch.members,
                            u.value as int,
                            0,
                        ) is None {
                            effect == UpdateEffect::FetchUser(u)
                        } else {
                            effect == UpdateEffect::Applied
                        },
                        VoiceChannelUpdateMessage::UserDisconnected(u) => effect
                            == UpdateEffect::Applied && final(self).channels() == old(
                            self,
                        ).channels().update(
                            c,
                            ChannelView { members: without_member(ch.members, u.value as int), ..ch },
                        ),
                        VoiceChannelUpdateMessage::UserStateUpdated((u, st)) => effect
                            == UpdateEffect::Applied && match first_member(
                            ch.members,
                            u.value as int,
                            0,
                        ) {
                            None => final(self).channels() == old(self).channels(),
                            Some(m) => final(self).channels() == old(self).channels().update(
                                c,
                                ChannelView {
                                    members: ch.members.update(
                                        m,
                                        MemberView { state: st, ..ch.members[m] },
                                    ),
                                    ..ch
                                },
                            ),
                        },
                    }
                },
            },
    {
        proof {
            lemma_first_channel_range(self.channels(), update.channel_id.value as int, 0);
        }
        let c = match self.find_channel(update.channel_id) {
            None => {
                return UpdateEffect::UnknownChannel;
            },
            Some(c) => c,
        };
        let ghost ch = old(self).channels()[c as int];
        match update.message {
            VoiceChannelUpdateMessage::UserConnected(u) => {
                proof {
                    lemma_first_member_range(ch.members, u.value as int, 0);
                }
                match find_member(&self.voice_channels[c].members, u) {
                    Some(_) => UpdateEffect::Applied,
                    None => UpdateEffect::FetchUser(u),
                }
            },
            VoiceChannelUpdateMessage::UserDisconnected(u) => {
                remove_member(&mut self.voice_channels[c].members, u);
                assert(self.channels() =~= old(self).channels().update(
                    c as int,
                    ChannelView { members: without_member(ch.members, u.value as int), ..ch },
                ));
                UpdateEffect::Applied
            },
            VoiceChannelUpdateMessage::UserStateUpdated((u, st)) => {
                proof {
                    lemma_first_member_range(ch.members, u.value as int, 0);
                }
                match find_member(&self.voice_channels[c].members, u) {
                    None => {},
                    Some(m) => {
                        self.voice_channels[c].members[m].state = st;
                        assert(members_view(self.voice_channels@[c as int].members@) =~= ch.members.update(
                            m as int,
                            MemberView { state: st, ..ch.members[m as int] },
                        ));
                        assert(self.channels() =~= old(self).channels().update(
                            c as int,
                            ChannelView {
                                members: ch.members.update(
                                    m as int,
                                    MemberView { state: st, ..ch.members[m as int] },
                                ),
                                ..ch
                            },
                        ));
                    },
                }
                UpdateEffect::Applied
            },
        }
    }

    /// Adds a user who joined channel `channel_id`, not talking, with the
    /// default state. Returns whether that channel is the active one (its
    /// members' audio is then to be played), or `None` when the channel is
    /// not listed.
    pub fn add_member(&mut self, channel_id: VoiceChannelId, id: UserId, name: String) -> (res: Option<bool>)
        requires
            old(self).wf(),
        ensures
            final(self).wf(),
            final(self).spec_switches() == old(self).spec_switches(),
            final(self).spec_user_id() == old(self).spec_user_id(),
            final(self).spec_noise_reduction() == old(self).spec_noise_reduction(),
            match first_channel(old(self).channels(), channel_id.value as int, 0) {
                None => res is None && final(self).channels() == old(self).channels(),
                Some(c) => {
                    let ch = old(self).channels()[c];
                    &&& res == Some(ch.is_active)
                    &&& final(self).channels() == old(self).channels().update(
                        c,
                        ChannelView {
                            members: ch.members.push(
                                MemberView {
                                    id: id.value as int,
                                    name: name@,
                                    state: VoiceChannelUserState {
                                        is_mic_off: false,
                                        is_sound_off: false,
                                        is_streaming: false,
                                    },
                                    is_talking: false,
                                },
                            ),
                            ..ch
                        },
                    )
                },
            },
    {
        proof {
            lemma_first_channel_range(self.channels(), channel_id.value as int, 0);
        }
        let c = match self.find_channel(channel_id) {
            None => {
                return None;
            },
            Some(c) => c,
        };
        let ghost ch = old(self).channels()[c as int];
        let ghost nm = name@;
        let member = VoiceChannelMember {
            id,
            name,
            state: VoiceChannelUserState::default(),
            is_talking: false,
        };
        self.voice_channels[c].members.push(member);
        assert(members_view(self.voice_channels@[c as int].members@) =~= ch.members.push(
            MemberView {
                id: id.value as int,
                name: nm,
                state: VoiceChannelUserState {
                    is_mic_off: false,
                    is_sound_off: false,
                    is_streaming: false,
                },
                is_talking: false,
            },
        ));
        assert(self.channels() =~= old(self).channels().update(
            c as int,
            ChannelView {
                members: ch.members.push(
                    MemberView {
                        id: id.value as int,
                        name: nm,
                        state: VoiceChannelUserState {
                            is_mic_off: false,
                            is_sound_off: false,
                            is_streaming: false,
                        },
                        is_talking: false,
                    },
                ),
                ..ch
            },
        ));
        Some(self.voice_channels[c].is_active)
    }
}

/// After leaving, the user is in no channel: with at most one channel
/// active, deactivating it leaves none active.
pub proof fn lemma_leave_leaves_no_active(s: Seq<ChannelView>, i: int, c: ChannelView)
    requires
        at_most_one_active(s),
        first_active(s, 0) == Some(i),
        !c.is_active,
    ensures
        first_active(s.update(i, c), 0) is None,
{
    lemma_first_active_range(s, 0);
    let t = s.update(i, c);
    assert forall|k: int| 0 <= k < t.len() implies !(#[trigger] t[k]).is_active by {
        if k != i && t[k].is_active {
            assert(s[k].is_active);
        }
    }
    lemma_no_active_first(t, 0);
}

proof fn lemma_no_active_first(s: Seq<ChannelView>, i: int)
    requires
        forall|k: int| 0 <= k < s.len() ==> !(#[trigger] s[k]).is_active,
        0 <= i,
    ensures
        first_active(s, i) is None,
    decreases s.len() - i,
{
    if i < s.len() {
        lemma_no_active_first(s, i + 1);
    }
}

/// A user who left a channel is no longer among its members.
pub proof fn lemma_removed_member_absent(s: Seq<MemberView>, id: int)
    ensures
        forall|k: int| 0 <= k < without_member(s, id).len() ==> (#[trigger] without_member(s, id)[k]).id != id,
    decreases s.len(),
{
    if s.len() > 0 {
        lemma_removed_member_absent(s.drop_last(), id);
        let rest = without_member(s.drop_last(), id);
        if s.last().id != id {
            assert forall|k: int| 0 <= k < rest.push(s.last()).len() implies (#[trigger] rest.push(
                s.last(),
            )[k]).id != id by {
                if k < rest.len() {
                    assert(rest.push(s.last())[k] == rest[k]);
                }
            }
        }
    }
}

} // verus!
