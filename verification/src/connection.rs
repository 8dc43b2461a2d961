//! Upkeep of the RPC client's connection: how long to wait before the next
//! connection attempt, and which subscribers of a notification stay
//! registered. The sockets and tasks stay with the caller.

use vstd::prelude::*;

verus! {

/// Seconds added to the wait before reconnecting, per failed attempt.
pub const TIMEOUT_SEC: usize = 10;

/// Failed connection attempts since the last success.
pub struct ReconnectBackoff {
    pub failures: usize,
}

impl ReconnectBackoff {
    /// No attempt has failed yet.
    pub fn new() -> (res: Self)
        ensures
            res.failures == 0,
    {
        ReconnectBackoff { failures: 0 }
    }

    /// A connection was made: the next failure waits the shortest time.
    pub fn on_connected(&mut self)
        ensures
            final(self).failures == 0,
    {
        self.failures = 0;
    }

    /// An attempt failed: returns how many seconds to wait before the next
    /// one, `TIMEOUT_SEC` per failure in a row.
    pub fn on_failure(&mut self) -> (delay_secs: usize)
        requires
            (old(self).failures + 1) * TIMEOUT_SEC <= usize::MAX,
        ensures
            final(self).failures == old(self).failures + 1,
            delay_secs == TIMEOUT_SEC * final(self).failures,
    {
        self.failures = self.failures + 1;
        TIMEOUT_SEC * self.failures
    }
}

/// The subscribers of `s` except those registered under `id`, in order.
pub open spec fn without_subscriber<S>(s: Seq<([u8; 16], S)>, id: Seq<u8>) -> Seq<([u8; 16], S)>
    decreases s.len(),
{
    if s.len() == 0 {
        s
    } else if s.last().0@ == id {
        without_subscriber(s.drop_last(), id)
    } else {
        without_subscriber(s.drop_last(), id).push(s.last())
    }
}

/// Whether two subscriber ids are equal.
fn same_id(a: &[u8; 16], b: &[u8; 16]) -> (res: bool)
    ensures
        res == (a@ == b@),
{
    let mut i: usize = 0;
    while i < 16
        invariant
            0 <= i <= 16,
            a@.len() == 16,
            b@.len() == 16,
            forall|k: int| 0 <= k < i ==> a@[k] == b@[k],
        decreases 16 - i,
    {
        if a[i] != b[i] {
            return false;
        }
        i = i + 1;
    }
    assert(a@ =~= b@);
    true
}

/// Drops the subscribers registered under `id`, as a subscription does when
/// it goes away; the others stay, in order.
pub fn remove_subscriber<S>(subs: &mut Vec<([u8; 16], S)>, id: &[u8; 16])
    ensures
        final(subs)@ == without_subscriber(old(subs)@, id@),
{
    let ghost src = old(subs)@;
    let mut i: usize = 0;
    let ghost mut j: int = 0;
    assert(subs@.take(0) =~= without_subscriber(src.take(0), id@));
    assert(subs@.skip(0) =~= src.skip(0));
    while i < subs.len()
        invariant
            src == old(subs)@,
            0 <= i <= subs@.len(),
            0 <= j <= src.len(),
            subs@.len() - i == src.len() - j,
            subs@.take(i as int) == without_subscriber(src.take(j), id@),
            subs@.skip(i as int) == src.skip(j),
        decreases subs@.len() - i,
    {
        let ghost before = subs@;
        assert(before[i as int] == before.skip(i as int)[0]);
        assert(src[j] == src.skip(j)[0]);
        assert(src.take(j + 1).drop_last() =~= src.take(j));
        assert(src.take(j + 1).last() == src[j]);
        if same_id(&subs[i].0, id) {
            subs.remove(i);
            assert(subs@ =~= before.remove(i as int));
            assert(subs@.take(i as int) =~= before.take(i as int));
            assert forall|k: int| 0 <= k < subs@.skip(i as int).len() implies subs@.skip(i as int)[k]
                == src.skip(j + 1)[k] by {
                assert(before.skip(i as int)[k + 1] == src.skip(j)[k + 1]);
            }
            assert(subs@.skip(i as int) =~= src.skip(j + 1));
        } else {
            i = i + 1;
            assert(subs@.take(i as int) =~= before.take(i - 1).push(before[i - 1]));
            assert forall|k: int| 0 <= k < subs@.skip(i as int).len() implies subs@.skip(i as int)[k]
                == src.skip(j + 1)[k] by {
                assert(before.skip(i - 1)[k + 1] == src.skip(j)[k + 1]);
            }
            assert(subs@.skip(i as int) =~= src.skip(j + 1));
        }
        proof {
            j = j + 1;
        }
    }
    assert(src.take(j) =~= src);
    assert(subs@.take(i as int) =~= subs@);
}

/// After removal no subscriber is registered under `id`, and every other
/// subscriber is still there.
pub proof fn lemma_removed_subscriber_absent<S>(s: Seq<([u8; 16], S)>, id: Seq<u8>)
    ensures
        forall|k: int|
            0 <= k < without_subscriber(s, id).len() ==> (#[trigger] without_subscriber(s, id)[k]).0@
                != id,
        forall|k: int|
            0 <= k < s.len() && s[k].0@ != id ==> without_subscriber(s, id).contains(#[trigger] s[k]),
    decreases s.len(),
{
    if s.len() > 0 {
        let init = s.drop_last();
        lemma_removed_subscriber_absent(init, id);
        let rest = without_subscriber(init, id);
        let t = without_subscriber(s, id);
        assert forall|k: int| 0 <= k < t.len() implies (#[trigger] t[k]).0@ != id by {
            if k < rest.len() {
                assert(t[k] == rest[k]);
            }
        }
        assert forall|k: int| 0 <= k < s.len() && s[k].0@ != id implies t.contains(#[trigger] s[k]) by {
            if k < s.len() - 1 {
                assert(s[k] == init[k]);
                assert(rest.contains(init[k]));
                let m = choose|m: int| 0 <= m < rest.len() && rest[m] == init[k];
                assert(t[m] == rest[m]);
            } else {
                assert(t[t.len() - 1] == s.last());
            }
        }
    }
}

} // verus!
