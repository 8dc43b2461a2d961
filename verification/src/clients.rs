//! The speakers whose audio is being played: one jitter buffer per user,
//! added and removed by commands from the user interface, fed with the
//! packets that arrive for them, and dropped once the interface lets go of
//! them. Decoding and mixing the samples stays with the caller.

use crate::jitter::{spec_next_action, spec_push, DecodeAction, JitterBuffer, JitterView, PushOutcome};
use vstd::prelude::*;

verus! {

/// A change of the set of speakers. `S` is the handle through which the
/// user interface shares the speaker's state.
pub enum AudioPacketCommand<S> {
    /// Start playing the user's audio (a user already listed starts afresh).
    AddClient((i32, S)),
    /// Stop playing the user's audio.
    RemoveClient(i32),
}

/// One speaker: its jitter buffer, the handle it shares with the user
/// interface, and whether it is still wanted.
pub struct AudioStreamingClientState<P, S> {
    pub user_id: i32,
    jitter_buffer: JitterBuffer<P>,
    shared: S,
    active: bool,
}

/// Abstract state of one speaker.
pub struct ClientView<P, S> {
    pub user_id: i32,
    pub jitter: JitterView<P>,
    pub shared: S,
    pub active: bool,
}

/// A speaker that has just been added.
pub open spec fn spec_fresh_client<P, S>(user_id: i32, shared: S) -> ClientView<P, S> {
    ClientView {
        user_id,
        jitter: JitterView {
            packets: Map::empty(),
            next_playout_seq: None,
            ending_chunk: None,
            misses: 0,
        },
        shared,
        active: true,
    }
}

impl<P, S> AudioStreamingClientState<P, S> {
    pub closed spec fn view(&self) -> ClientView<P, S> {
        ClientView {
            user_id: self.user_id,
            jitter: self.jitter_buffer@,
            shared: self.shared,
            active: self.active,
        }
    }

    pub closed spec fn wf(&self) -> bool {
        self.jitter_buffer.wf()
    }

    /// A speaker with an empty jitter buffer, still wanted.
    pub fn new(user_id: i32, shared: S) -> (res: Self)
        ensures
            res.wf(),
            res@ == spec_fresh_client::<P, S>(user_id, shared),
    {
        let res = AudioStreamingClientState {
            user_id,
            jitter_buffer: JitterBuffer::new(),
            shared,
            active: true,
        };
        assert(res@.jitter.packets =~= Map::<u64, P>::empty());
        res
    }
}

/// Index of the first speaker with id `user_id` at or after `i`.
pub open spec fn find_client<P, S>(s: Seq<ClientView<P, S>>, user_id: i32, i: int) -> Option<int>
    decreases s.len() - i,
{
    if i < 0 || i >= s.len() {
        None
    } else if s[i].user_id == user_id {
        Some(i)
    } else {
        find_client(s, user_id, i + 1)
    }
}

/// No user is listed twice.
pub open spec fn distinct_users<P, S>(s: Seq<ClientView<P, S>>) -> bool {
    forall|i: int, j: int|
        0 <= i < s.len() && 0 <= j < s.len() && i != j ==> (#[trigger] s[i]).user_id != (#[trigger] s[j]).user_id
}

/// The speakers after a command.
pub open spec fn spec_apply_command<P, S>(s: Seq<ClientView<P, S>>, command: AudioPacketCommand<S>) -> Seq<
    ClientView<P, S>,
> {
    match command {
        AudioPacketCommand::AddClient((user_id, shared)) => match find_client(s, user_id, 0) {
            Some(k) => s.update(k, spec_fresh_client(user_id, shared)),
            None => s.push(spec_fresh_client(user_id, shared)),
        },
        AudioPacketCommand::RemoveClient(user_id) => match find_client(s, user_id, 0) {
            Some(k) => s.remove(k),
            None => s,
        },
    }
}

/// The speakers that are still wanted, in order.
pub open spec fn spec_retain_active<P, S>(s: Seq<ClientView<P, S>>) -> Seq<ClientView<P, S>>
    decreases s.len(),
{
    if s.len() == 0 {
        s
    } else if s.last().active {
        spec_retain_active(s.drop_last()).push(s.last())
    } else {
        spec_retain_active(s.drop_last())
    }
}

proof fn lemma_retain_active_subset<P, S>(s: Seq<ClientView<P, S>>)
    ensures
        forall|i: int|
            0 <= i < spec_retain_active(s).len() ==> exists|j: int|
                0 <= j < s.len() && #[trigger] spec_retain_active(s)[i] == s[j],
        distinct_users(s) ==> distinct_users(spec_retain_active(s)),
    decreases s.len(),
{
    if s.len() > 0 {
        let init = s.drop_last();
        lemma_retain_active_subset(init);
        let r = spec_retain_active(init);
        assert forall|i: int| 0 <= i < r.len() implies exists|j: int|
            0 <= j < s.len() && #[trigger] r[i] == s[j] by {
            let j = choose|j: int| 0 <= j < init.len() && r[i] == init[j];
            assert(s[j] == init[j]);
        }
        if distinct_users(s) {
            assert(distinct_users(init)) by {
                assert forall|a: int, b: int|
                    0 <= a < init.len() && 0 <= b < init.len() && a != b implies (
                    #[trigger] init[a]).user_id != (#[trigger] init[b]).user_id by {
                    assert(init[a] == s[a] && init[b] == s[b]);
                }
            }
        }
        if s.last().active {
            let t = r.push(s.last());
            assert forall|i: int| 0 <= i < t.len() implies exists|j: int|
                0 <= j < s.len() && #[trigger] t[i] == s[j] by {
                if i < r.len() {
                    assert(t[i] == r[i]);
                    let j = choose|j: int| 0 <= j < init.len() && r[i] == init[j];
                    assert(s[j] == init[j]);
                } else {
                    assert(t[i] == s[s.len() - 1]);
                }
            }
            if distinct_users(s) {
                assert forall|a: int, b: int|
                    0 <= a < t.len() && 0 <= b < t.len() && a != b implies (
                    #[trigger] t[a]).user_id != (#[trigger] t[b]).user_id by {
                    if a < r.len() && b < r.len() {
                        assert(t[a] == r[a] && t[b] == r[b]);
                    } else {
                        let x = if a < r.len() { a } else { b };
                        assert(t[x] == r[x]);
                        let j = choose|j: int| 0 <= j < init.len() && r[x] == init[j];
                        assert(init[j] == s[j]);
                    }
                }
            }
        }
    }
}

proof fn lemma_find_client_range<P, S>(s: Seq<ClientView<P, S>>, user_id: i32, i: int)
    requires
        0 <= i,
    ensures
        find_client(s, user_id, i) matches Some(k) ==> i <= k < s.len() && s[k].user_id == user_id,
        find_client(s, user_id, i) is None ==> forall|k: int|
            i <= k < s.len() ==> (#[trigger] s[k]).user_id != user_id,
    decreases s.len() - i,
{
    if i < s.len() {
        lemma_find_client_range(s, user_id, i + 1);
    }
}

/// The speakers being played.
pub struct ActiveClients<P, S> {
    clients: Vec<AudioStreamingClientState<P, S>>,
}

impl<P, S> ActiveClients<P, S> {
    pub closed spec fn view(&self) -> Seq<ClientView<P, S>> {
        self.clients@.map_values(|c: AudioStreamingClientState<P, S>| c@)
    }

    /// No user is listed twice, and every jitter buffer is well formed.
    pub closed spec fn wf(&self) -> bool {
        &&& distinct_users(self@)
        &&& forall|i: int| 0 <= i < self.clients@.len() ==> (#[trigger] self.clients@[i]).wf()
    }

    /// Nobody is played.
    pub fn new() -> (res: Self)
        ensures
            res.wf(),
            res@ == Seq::<ClientView<P, S>>::empty(),
    {
        let res = ActiveClients { clients: Vec::new() };
        assert(res@ =~= Seq::<ClientView<P, S>>::empty());
        res
    }

    /// Number of speakers.
    pub fn len(&self) -> (n: usize)
        ensures
            n == self@.len(),
    {
        self.clients.len()
    }

    fn find(&self, user_id: i32) -> (res: Option<usize>)
        ensures
            match res {
                Some(k) => find_client(self@, user_id, 0) == Some(k as int),
                None => find_client(self@, user_id, 0) is None,
            },
    {
        let mut i: usize = 0;
        while i < self.clients.len()
            invariant
                0 <= i <= self.clients@.len(),
                find_client(self@, user_id, 0) == find_client(self@, user_id, i as int),
            decreases self.clients@.len() - i,
        {
            if self.clients[i].user_id == user_id {
                return Some(i);
            }
            i = i + 1;
        }
        None
    }

    /// Applies a command from the user interface: an added user starts with
    /// an empty jitter buffer (replacing the one they had), a removed user is
    /// dropped.
    pub fn process_command(&mut self, command: AudioPacketCommand<S>)
        requires
            old(self).wf(),
        ensures
            final(self).wf(),
            final(self)@ == spec_apply_command(old(self)@, command),
    {
        match command {
            AudioPacketCommand::AddClient((user_id, shared)) => {
                proof {
                    lemma_find_client_range(self@, user_id, 0);
                }
                let client = AudioStreamingClientState::new(user_id, shared);
                match self.find(user_id) {
                    Some(k) => {
                        self.clients.set(k, client);
                        assert(self@ =~= old(self)@.update(k as int, spec_fresh_client(user_id, shared)));
                    },
                    None => {
                        self.clients.push(client);
                        assert(self@ =~= old(self)@.push(spec_fresh_client(user_id, shared)));
                    },
                }
                assert(distinct_users(self@));
            },
            AudioPacketCommand::RemoveClient(user_id) => {
                self.remove(user_id);
            },
        }
    }

    fn remove(&mut self, user_id: i32)
        requires
            old(self).wf(),
        ensures
            final(self).wf(),
            final(self)@ == spec_apply_command(old(self)@, AudioPacketCommand::RemoveClient(user_id)),
    {
        proof {
            lemma_find_client_range(self@, user_id, 0);
        }
        match self.find(user_id) {
            Some(k) => {
                self.clients.remove(k);
                assert(self@ =~= old(self)@.remove(k as int));
                assert forall|a: int, b: int|
                    0 <= a < self@.len() && 0 <= b < self@.len() && a != b implies (
                    #[trigger] self@[a]).user_id != (#[trigger] self@[b]).user_id by {
                    let a2 = if a < k { a } else { a + 1 };
                    let b2 = if b < k { b } else { b + 1 };
                    assert(self@[a] == old(self)@[a2] && self@[b] == old(self)@[b2]);
                }
                assert forall|i: int| 0 <= i < self.clients@.len() implies (#[trigger] self.clients@[i]).wf() by {
                    let i2 = if i < k { i } else { i + 1 };
                    assert(self.clients@[i] == old(self).clients@[i2]);
                }
            },
            None => {},
        }
    }

    /// Drops the speakers that the user interface let go of.
    pub fn retain_active(&mut self)
        requires
            old(self).wf(),
        ensures
            final(self).wf(),
            final(self)@ == spec_retain_active(old(self)@),
    {
        let ghost src = old(self)@;
        let mut i: usize = 0;
        let ghost mut j: int = 0;
        assert(self@.take(0) =~= spec_retain_active(src.take(0)));
        assert(self@.skip(0) =~= src.skip(0));
        while i < self.clients.len()
            invariant
                src == old(self)@,
                0 <= i <= self@.len(),
                0 <= j <= src.len(),
                self@.len() - i == src.len() - j,
                self@.take(i as int) == spec_retain_active(src.take(j)),
                self@.skip(i as int) == src.skip(j),
                forall|k: int| 0 <= k < self.clients@.len() ==> (#[trigger] self.clients@[k]).wf(),
            decreases self@.len() - i,
        {
            let ghost before = self@;
            assert(before[i as int] == before.skip(i as int)[0]);
            assert(src[j] == src.skip(j)[0]);
            assert(src.take(j + 1).drop_last() =~= src.take(j));
            assert(src.take(j + 1).last() == src[j]);
            if self.clients[i].active {
                i = i + 1;
                assert(self@.take(i as int) =~= before.take(i - 1).push(before[i - 1]));
                assert forall|k: int| 0 <= k < self@.skip(i as int).len() implies self@.skip(i as int)[k] == src.skip(j + 1)[k] by {
                    assert(before.skip(i - 1)[k + 1] == src.skip(j)[k + 1]);
                }
                assert(self@.skip(i as int) =~= src.skip(j + 1));
            } else {
                let ghost cs = self.clients@;
                self.clients.remove(i);
                assert(self@ =~= before.remove(i as int));
                assert(self@.take(i as int) =~= before.take(i as int));
                assert forall|k: int| 0 <= k < self@.skip(i as int).len() implies self@.skip(i as int)[k] == src.skip(j + 1)[k] by {
                    assert(before.skip(i as int)[k + 1] == src.skip(j)[k + 1]);
                }
                assert(self@.skip(i as int) =~= src.skip(j + 1));
                assert forall|k: int| 0 <= k < self.clients@.len() implies (#[trigger] self.clients@[k]).wf() by {
                    let k2 = if k < i { k } else { k + 1 };
                    assert(self.clients@[k] == cs[k2]);
                }
            }
            proof {
                j = j + 1;
            }
        }
        assert(src.take(j) =~= src);
        assert(self@.take(i as int) =~= self@);
        proof {
            lemma_retain_active_subset(src);
        }
    }

    /// Hands a packet of user `user_id` to their jitter buffer; `None` when
    /// the user is not played (a late packet of someone who left), and the
    /// packet is dropped.
    pub fn push_packet(&mut self, user_id: i32, seq: u64, marker: bool, packet: P) -> (res: Option<
        PushOutcome,
    >)
        requires
            old(self).wf(),
        ensures
            final(self).wf(),
            match find_client(old(self)@, user_id, 0) {
                None => res is None && final(self)@ == old(self)@,
                Some(k) => {
                    let c = old(self)@[k];
                    let (j, outcome) = spec_push(c.jitter, seq, marker, packet);
                    &&& res == Some(outcome)
                    &&& final(self)@ == old(self)@.update(k, ClientView { jitter: j, ..c })
                },
            },
    {
        proof {
            lemma_find_client_range(self@, user_id, 0);
        }
        match self.find(user_id) {
            None => None,
            Some(k) => {
                let mut client = self.clients.remove(k);
                let outcome = client.jitter_buffer.push_packet(seq, marker, packet);
                self.clients.insert(k, client);
                assert(self@ =~= old(self)@.update(
                    k as int,
                    ClientView { jitter: spec_push(old(self)@[k as int].jitter, seq, marker, packet).0, ..old(self)@[k as int] },
                ));
                Some(outcome)
            },
        }
    }

    /// The id of the speaker at `i`.
    pub fn user_id(&self, i: usize) -> (res: i32)
        requires
            i < self@.len(),
        ensures
            res == self@[i as int].user_id,
    {
        self.clients[i].user_id
    }

    /// The handle shared with the user interface of the speaker at `i`.
    pub fn shared(&self, i: usize) -> (res: &S)
        requires
            i < self@.len(),
        ensures
            *res == self@[i as int].shared,
    {
        &self.clients[i].shared
    }

    /// The next playout step of the speaker at `i`.
    pub fn next_action(&mut self, i: usize, ready: bool) -> (action: DecodeAction<P>)
        requires
            old(self).wf(),
            i < old(self)@.len(),
        ensures
            final(self).wf(),
            ({
                let c = old(self)@[i as int];
                let (j, a) = spec_next_action(c.jitter, ready);
                &&& action == a
                &&& final(self)@ == old(self)@.update(i as int, ClientView { jitter: j, ..c })
            }),
    {
        let mut client = self.clients.remove(i);
        let action = client.jitter_buffer.next_action(ready);
        self.clients.insert(i, client);
        assert(self@ =~= old(self)@.update(
            i as int,
            ClientView { jitter: spec_next_action(old(self)@[i as int].jitter, ready).0, ..old(self)@[i as int] },
        ));
        action
    }

    /// The user interface let go of the speaker at `i`: it is dropped at the
    /// next `retain_active`.
    pub fn deactivate(&mut self, i: usize)
        requires
            old(self).wf(),
            i < old(self)@.len(),
        ensures
            final(self).wf(),
            final(self)@ == old(self)@.update(i as int, ClientView { active: false, ..old(self)@[i as int] }),
    {
        self.clients[i].active = false;
        assert(self@ =~= old(self)@.update(i as int, ClientView { active: false, ..old(self)@[i as int] }));
    }
}

/// Adding a user leaves exactly one speaker with that id, starting afresh,
/// whether or not the user was played before.
pub proof fn lemma_added_client_listed_once<P, S>(s: Seq<ClientView<P, S>>, user_id: i32, shared: S)
    requires
        distinct_users(s),
    ensures
        ({
            let t = spec_apply_command(s, AudioPacketCommand::AddClient((user_id, shared)));
            &&& distinct_users(t)
            &&& find_client(t, user_id, 0) matches Some(k) && t[k] == spec_fresh_client::<P, S>(user_id, shared)
        }),
{
    lemma_find_client_range(s, user_id, 0);
    let t = spec_apply_command(s, AudioPacketCommand::AddClient((user_id, shared)));
    lemma_find_client_range(t, user_id, 0);
    match find_client(s, user_id, 0) {
        Some(k) => {
            assert(t[k].user_id == user_id);
        },
        None => {
            assert(t[s.len() as int].user_id == user_id);
        },
    }
    assert forall|a: int, b: int|
        0 <= a < t.len() && 0 <= b < t.len() && a != b implies (#[trigger] t[a]).user_id != (
        #[trigger] t[b]).user_id by {
        if a < s.len() && b < s.len() && (find_client(s, user_id, 0) matches Some(k) ==> a != k && b != k) {
            assert(t[a] == s[a] && t[b] == s[b]);
        }
    }
}

/// After a user is removed, no speaker has that id.
pub proof fn lemma_removed_client_absent<P, S>(s: Seq<ClientView<P, S>>, user_id: i32)
    requires
        distinct_users(s),
    ensures
        ({
            let t = spec_apply_command(s, AudioPacketCommand::<S>::RemoveClient(user_id));
            forall|k: int| 0 <= k < t.len() ==> (#[trigger] t[k]).user_id != user_id
        }),
{
    lemma_find_client_range(s, user_id, 0);
    let t = spec_apply_command(s, AudioPacketCommand::<S>::RemoveClient(user_id));
    if let Some(k) = find_client(s, user_id, 0) {
        assert forall|i: int| 0 <= i < t.len() implies (#[trigger] t[i]).user_id != user_id by {
            let i2 = if i < k { i } else { i + 1 };
            assert(t[i] == s[i2]);
        }
    }
}

/// Removing a user keeps every other speaker: each speaker with another id
/// is still listed, and exactly one entry fewer remains when the user was
/// listed, none fewer otherwise.
pub proof fn lemma_removal_keeps_other_clients<P, S>(s: Seq<ClientView<P, S>>, user_id: i32)
    requires
        distinct_users(s),
    ensures
        ({
            let t = spec_apply_command(s, AudioPacketCommand::<S>::RemoveClient(user_id));
            &&& forall|k: int| 0 <= k < s.len() && s[k].user_id != user_id ==> t.contains(#[trigger] s[k])
            &&& t.len() == if exists|k: int| 0 <= k < s.len() && #[trigger] s[k].user_id == user_id {
                s.len() - 1
            } else {
                s.len() as int
            }
        }),
{
    lemma_find_client_range(s, user_id, 0);
    let t = spec_apply_command(s, AudioPacketCommand::<S>::RemoveClient(user_id));
    match find_client(s, user_id, 0) {
        Some(j) => {
            assert forall|k: int| 0 <= k < s.len() && s[k].user_id != user_id implies t.contains(
                #[trigger] s[k],
            ) by {
                let k2 = if k < j { k } else { k - 1 };
                assert(k != j);
                assert(t[k2] == s[k]);
            }
            assert(s[j].user_id == user_id);
        },
        None => {
            assert forall|k: int| 0 <= k < s.len() && s[k].user_id != user_id implies t.contains(
                #[trigger] s[k],
            ) by {
                assert(t[k] == s[k]);
            }
        },
    }
}

} // verus!
