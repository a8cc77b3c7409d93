//! The bookkeeping of a scripting session: which entities run scripts this
//! frame, whose `init` has run, which contacts are new since the last
//! collision dispatch, and whether a script asked the game to end. The Lua
//! state itself belongs to the scripting runtime.
use vstd::prelude::*;
use crate::ecs::Scene;
use crate::ecs::entity::EntityView;
use crate::ecs::tables::{entities_entry, entities_len};

verus! {

/// The state a session keeps between frames.
#[derive(Debug)]
pub struct ScriptSession {
    /// Entities whose `init` has run this session.
    pub initialized: Vec<u128>,
    /// Each scripted entity's contacts at the last collision dispatch.
    pub previous_contacts: Vec<(u128, Vec<u128>)>,
    /// A script called `end_game()` since the runtime last asked.
    pub game_stop_requested: bool,
}

/// The contacts recorded for `id` by its last record (none when it has no
/// record).
pub open spec fn contacts_of(prev: Seq<(u128, Vec<u128>)>, id: u128) -> Seq<u128>
    decreases prev.len(),
{
    if prev.len() == 0 {
        Seq::empty()
    } else if prev.last().0 == id {
        prev.last().1@
    } else {
        contacts_of(prev.drop_last(), id)
    }
}

/// The scripted entities of a table, in order: each one's id and script.
pub open spec fn scripted(t: Seq<(u128, EntityView)>) -> Seq<(u128, Seq<char>)>
    decreases t.len(),
{
    if t.len() == 0 {
        Seq::empty()
    } else {
        let rest = scripted(t.drop_last());
        match t.last().1.script {
            Some(p) => rest.push((t.last().0, p)),
            None => rest,
        }
    }
}

/// The views of a list of (entity, script) pairs.
pub open spec fn pair_views(v: Seq<(u128, String)>) -> Seq<(u128, Seq<char>)> {
    v.map_values(|x: (u128, String)| (x.0, x.1@))
}

/// One `first_run` call: on record `before` and entity `e`, the answer `r`
/// is whether `e` is not yet recorded, and `after` is the record then.
pub open spec fn first_run_step(before: Seq<u128>, e: u128, r: bool, after: Seq<u128>) -> bool {
    &&& r == !before.contains(e)
    &&& after == if r { before.push(e) } else { before }
}

/// Steps `0..n` of a run of `first_run` calls: `records[i]` is the record
/// before call `i`, which asks about `calls[i]` and answers `answers[i]`.
pub open spec fn first_run_chain(records: Seq<Seq<u128>>, calls: Seq<u128>, answers: Seq<bool>, n: int) -> bool {
    forall|i: int| 0 <= i < n ==> first_run_step(#[trigger] records[i], calls[i], answers[i], records[i + 1])
}

/// After the first `i` calls of a session that started with nothing
/// recorded, an entity is recorded exactly when one of those calls asked
/// about it.
proof fn lemma_recorded_iff_called(records: Seq<Seq<u128>>, calls: Seq<u128>, answers: Seq<bool>, i: int, e: u128)
    requires
        records.len() == calls.len() + 1,
        answers.len() == calls.len(),
        records[0].len() == 0,
        first_run_chain(records, calls, answers, calls.len() as int),
        0 <= i <= calls.len(),
    ensures
        records[i].contains(e) <==> exists|j: int| 0 <= j < i && calls[j] == e,
    decreases i,
{
    if i == 0 {
        assert(!records[0].contains(e));
    } else {
        lemma_recorded_iff_called(records, calls, answers, i - 1, e);
        let before = records[i - 1];
        assert(first_run_step(records[i - 1], calls[i - 1], answers[i - 1], records[i]));
        if answers[i - 1] {
            assert(records[i] == before.push(calls[i - 1]));
            if records[i].contains(e) {
                let k = choose|k: int| 0 <= k < records[i].len() && records[i][k] == e;
                if k < before.len() {
                    assert(before[k] == e);
                    assert(before.contains(e));
                } else {
                    assert(calls[i - 1] == e);
                }
            }
            if exists|j: int| 0 <= j < i && calls[j] == e {
                let j = choose|j: int| 0 <= j < i && calls[j] == e;
                if j < i - 1 {
                    assert(before.contains(e));
                    let k = choose|k: int| 0 <= k < before.len() && before[k] == e;
                    assert(records[i][k] == e);
                } else {
                    assert(records[i][before.len() as int] == e);
                }
            }
        } else {
            assert(records[i] == before);
            assert(before.contains(calls[i - 1]));
            if exists|j: int| 0 <= j < i && calls[j] == e {
                let j = choose|j: int| 0 <= j < i && calls[j] == e;
                if j < i - 1 {
                    assert(0 <= j < i - 1 && calls[j] == e);
                }
            }
        }
    }
}

/// In one session, over any run of `first_run` calls (the other operations
/// of a session leave its record alone), the answer is yes exactly on the
/// first call for each entity: its `init` runs once, before its first
/// `update`.
pub proof fn law_init_once_per_entity(records: Seq<Seq<u128>>, calls: Seq<u128>, answers: Seq<bool>, k: int)
    requires
        records.len() == calls.len() + 1,
        answers.len() == calls.len(),
        records[0].len() == 0,
        first_run_chain(records, calls, answers, calls.len() as int),
        0 <= k < calls.len(),
    ensures
        answers[k] <==> forall|j: int| 0 <= j < k ==> calls[j] != calls[k],
{
    lemma_recorded_iff_called(records, calls, answers, k, calls[k]);
    assert(first_run_step(records[k], calls[k], answers[k], records[k + 1]));
}

impl ScriptSession {
    /// A fresh session: nothing initialized, no contacts, no stop request.
    pub fn new() -> (r: Self)
        ensures
            r.initialized@.len() == 0,
            r.previous_contacts@.len() == 0,
            !r.game_stop_requested,
    {
        ScriptSession { initialized: Vec::new(), previous_contacts: Vec::new(), game_stop_requested: false }
    }

    /// Is this the entity's first script run of the session? The answer is
    /// yes once: the entity is then recorded.
    pub fn first_run(&mut self, entity_id: u128) -> (r: bool)
        ensures
            first_run_step(old(self).initialized@, entity_id, r, final(self).initialized@),
            final(self).previous_contacts == old(self).previous_contacts,
            final(self).game_stop_requested == old(self).game_stop_requested,
    {
        let mut i: usize = 0;
        while i < self.initialized.len()
            invariant
                i <= self.initialized.len(),
                forall|j: int| 0 <= j < i ==> self.initialized@[j] != entity_id,
            decreases self.initialized.len() - i,
        {
            if self.initialized[i] == entity_id {
                return false;
            }
            i = i + 1;
        }
        self.initialized.push(entity_id);
        true
    }

    /// The contacts recorded for an entity, taken out of the record.
    fn take_contacts(&mut self, entity_id: u128) -> (r: Vec<u128>)
        ensures
            r@ == contacts_of(old(self).previous_contacts@, entity_id),
            forall|j: int| 0 <= j < final(self).previous_contacts@.len()
                ==> (#[trigger] final(self).previous_contacts@[j]).0 != entity_id,
            forall|other: u128| other != entity_id ==> contacts_of(final(self).previous_contacts@, other)
                == contacts_of(old(self).previous_contacts@, other),
            final(self).initialized == old(self).initialized,
            final(self).game_stop_requested == old(self).game_stop_requested,
    {
        let ghost prev = self.previous_contacts@;
        let mut rest: Vec<(u128, Vec<u128>)> = Vec::new();
        std::mem::swap(&mut rest, &mut self.previous_contacts);
        let mut kept: Vec<(u128, Vec<u128>)> = Vec::new();
        let mut found: Vec<u128> = Vec::new();
        let n = rest.len();
        let mut i: usize = 0;
        proof {
            assert(prev.take(0) =~= Seq::<(u128, Vec<u128>)>::empty());
            assert(prev.skip(0) =~= prev);
        }
        while i < n
            invariant
                n == prev.len(),
                i <= n,
                rest@ == prev.skip(i as int),
                found@ == contacts_of(prev.take(i as int), entity_id),
                forall|j: int| 0 <= j < kept@.len() ==> (#[trigger] kept@[j]).0 != entity_id,
                forall|other: u128| other != entity_id ==> contacts_of(kept@, other)
                    == contacts_of(prev.take(i as int), other),
            decreases n - i,
        {
            let entry = rest.remove(0);
            proof {
                assert(entry == prev[i as int]);
                assert(rest@ =~= prev.skip(i + 1));
                assert(prev.take(i + 1).drop_last() =~= prev.take(i as int));
                assert(prev.take(i + 1).last() == entry);
            }
            if entry.0 == entity_id {
                found = entry.1;
            } else {
                let ghost k0 = kept@;
                kept.push(entry);
                proof {
                    assert(kept@.drop_last() =~= k0);
                    assert forall|other: u128| other != entity_id implies contacts_of(kept@, other)
                        == contacts_of(prev.take(i + 1), other) by {
                        assert(contacts_of(k0, other) == contacts_of(prev.take(i as int), other));
                    }
                }
            }
            i = i + 1;
        }
        proof {
            assert(prev.take(n as int) =~= prev);
        }
        self.previous_contacts = kept;
        found
    }

    /// The contacts of `entity_id` that are new since the last dispatch:
    /// those in `current` it was not in contact with then, each once. The
    /// record then holds `current`.
    pub fn new_contacts(&mut self, entity_id: u128, current: Vec<u128>) -> (r: Vec<u128>)
        ensures
            r@.no_duplicates(),
            forall|x: u128| #[trigger] r@.contains(x) <==> (current@.contains(x)
                && !contacts_of(old(self).previous_contacts@, entity_id).contains(x)),
            contacts_of(final(self).previous_contacts@, entity_id) == current@,
            forall|other: u128| other != entity_id ==> contacts_of(final(self).previous_contacts@, other)
                == contacts_of(old(self).previous_contacts@, other),
            final(self).initialized == old(self).initialized,
            final(self).game_stop_requested == old(self).game_stop_requested,
    {
        let previous = self.take_contacts(entity_id);
        let mut fresh: Vec<u128> = Vec::new();
        let mut i: usize = 0;
        while i < current.len()
            invariant
                i <= current.len(),
                fresh@.no_duplicates(),
                forall|x: u128| #[trigger] fresh@.contains(x) <==> (current@.take(i as int).contains(x)
                    && !previous@.contains(x)),
            decreases current.len() - i,
        {
            let x = current[i];
            let known = contains_id(&previous, x) || contains_id(&fresh, x);
            let ghost f0 = fresh@;
            proof {
                assert(current@.take(i + 1) =~= current@.take(i as int).push(x));
            }
            if !known {
                fresh.push(x);
            }
            proof {
                let t1 = current@.take(i + 1);
                let t0 = current@.take(i as int);
                assert forall|y: u128| #[trigger] fresh@.contains(y) <==> (t1.contains(y) && !previous@.contains(y)) by {
                    lemma_push_contains(t0, x, y);
                    if !known {
                        lemma_push_contains(f0, x, y);
                    }
                }
                if !known {
                    assert forall|a: int, b: int| 0 <= a < fresh@.len() && 0 <= b < fresh@.len() && a != b implies
                        fresh@[a] != fresh@[b] by {
                        if a == f0.len() {
                            assert(f0.contains(fresh@[b]));
                        } else if b == f0.len() {
                            assert(f0.contains(fresh@[a]));
                        }
                    }
                }
            }
            i = i + 1;
        }
        proof {
            assert(current@.take(current.len() as int) =~= current@);
        }
        let ghost p0 = self.previous_contacts@;
        self.previous_contacts.push((entity_id, current));
        proof {
            assert(self.previous_contacts@.drop_last() =~= p0);
        }
        fresh
    }

    /// `end_game()` from a script: the runtime stops the game after the
    /// scripts of this frame.
    pub fn request_stop(&mut self)
        ensures
            final(self).game_stop_requested,
            final(self).initialized == old(self).initialized,
            final(self).previous_contacts == old(self).previous_contacts,
    {
        self.game_stop_requested = true;
    }

    /// Whether a script asked the game to stop since the last call (once:
    /// the request is cleared).
    pub fn take_game_stop_request(&mut self) -> (r: bool)
        ensures
            r == old(self).game_stop_requested,
            !final(self).game_stop_requested,
            final(self).initialized == old(self).initialized,
            final(self).previous_contacts == old(self).previous_contacts,
    {
        let r = self.game_stop_requested;
        self.game_stop_requested = false;
        r
    }
}

/// What a list holds after a push.
proof fn lemma_push_contains<T>(s: Seq<T>, x: T, y: T)
    ensures
        s.push(x).contains(y) <==> (s.contains(y) || y == x),
{
    if s.contains(y) {
        let k = choose|k: int| 0 <= k < s.len() && s[k] == y;
        assert(s.push(x)[k] == y);
    }
    if y == x {
        assert(s.push(x)[s.len() as int] == x);
    }
    if s.push(x).contains(y) && y != x {
        let k = choose|k: int| 0 <= k < s.push(x).len() && s.push(x)[k] == y;
        assert(s[k] == y);
    }
}

/// Is `x` in the list?
fn contains_id(v: &Vec<u128>, x: u128) -> (r: bool)
    ensures
        r == v@.contains(x),
{
    let mut i: usize = 0;
    while i < v.len()
        invariant
            i <= v.len(),
            forall|j: int| 0 <= j < i ==> v@[j] != x,
        decreases v.len() - i,
    {
        if v[i] == x {
            return true;
        }
        i = i + 1;
    }
    false
}

/// The entities of `scene` that have a script, with their scripts, in the
/// scene's order: the list the runtime runs this frame.
pub fn scripted_entities(scene: &Scene) -> (r: Vec<(u128, String)>)
    ensures
        pair_views(r@) == scripted(scene@.entities),
{
    let n = entities_len(&scene.entities);
    let ghost t = scene@.entities;
    let mut r: Vec<(u128, String)> = Vec::new();
    let mut i: usize = 0;
    while i < n
        invariant
            t == scene@.entities,
            n == t.len(),
            i <= n,
            pair_views(r@) == scripted(t.take(i as int)),
        decreases n - i,
    {
        let (id, entity) = entities_entry(&scene.entities, i);
        let ghost r0 = r@;
        proof {
            assert(t.take(i + 1).drop_last() =~= t.take(i as int));
            assert(t.take(i + 1).last() == t[i as int]);
        }
        match &entity.script {
            Some(p) => {
                let pc = p.clone();
                r.push((id, pc));
                proof {
                    assert(pair_views(r@) =~= pair_views(r0).push((id, pc@)));
                }
            },
            None => {},
        }
        i = i + 1;
    }
    proof {
        assert(t.take(n as int) =~= t);
    }
    r
}

} // verus!
