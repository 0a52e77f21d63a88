//! The configuration store: an in-memory mapping from container id to its
//! last-known configuration snapshot. The store is the single shared-mutation
//! point of the supervisor; readers copy entries out, and a recreate-style
//! restart migrates an entry atomically from the old id to the new one.
//!
//! The store's meaning is a map from id to configuration view; every
//! operation's contract states exactly how it changes that map, so an entry
//! observed through `get` is always exactly what the most recent successful
//! write for that id put there, never a partially built one.
use vstd::prelude::*;

use crate::keyed::{
    keys_unique, lemma_keys_unique_push, lemma_keys_unique_remove, lemma_keys_unique_update,
    lemma_map_of_absent, lemma_map_of_contains, lemma_map_of_index, lemma_map_of_push,
    lemma_map_of_remove, lemma_map_of_update, map_of,
};
use crate::models::{ConfigView, ContainerConfig, CoreError};

verus! {

/// Key of a store entry: the characters of its container id.
pub open spec fn cfg_key() -> spec_fn(ContainerConfig) -> Seq<char> {
    |c: ContainerConfig| c.container_id@
}

/// Value of a store entry: the configuration's view.
pub open spec fn cfg_val() -> spec_fn(ContainerConfig) -> ConfigView {
    |c: ContainerConfig| c@
}

/// The map described by a sequence of store entries.
pub open spec fn store_map(s: Seq<ContainerConfig>) -> Map<Seq<char>, ConfigView> {
    map_of(s, cfg_key(), cfg_val())
}

/// In-memory mapping from container id to configuration snapshot.
pub struct ConfigStore {
    entries: Vec<ContainerConfig>,
}

impl View for ConfigStore {
    type V = Map<Seq<char>, ConfigView>;

    closed spec fn view(&self) -> Map<Seq<char>, ConfigView> {
        store_map(self.entries@)
    }
}

impl ConfigStore {
    /// Entries carry pairwise distinct container ids.
    pub closed spec fn wf(&self) -> bool {
        keys_unique(self.entries@, cfg_key())
    }

    /// An empty store.
    pub fn new() -> (r: Self)
        ensures
            r.wf(),
            r@ == Map::<Seq<char>, ConfigView>::empty(),
    {
        ConfigStore { entries: Vec::new() }
    }

    /// Position of the entry for `id`, if one exists.
    fn find_index(&self, id: &str) -> (r: Option<usize>)
        ensures
            match r {
                Some(i) => i < self.entries@.len() && self.entries@[i as int].container_id@
                    == id@,
                None => forall|j: int|
                    0 <= j < self.entries@.len() ==> (#[trigger] self.entries@[j]).container_id@
                        != id@,
            },
    {
        let mut i: usize = 0;
        while i < self.entries.len()
            invariant
                i <= self.entries@.len(),
                forall|j: int|
                    0 <= j < i ==> (#[trigger] self.entries@[j]).container_id@ != id@,
            decreases self.entries@.len() - i,
        {
            if crate::strutil::str_eq(self.entries[i].container_id.as_str(), id) {
                return Some(i);
            }
            i = i + 1;
        }
        None
    }

    /// Whether the store holds an entry for `id`.
    pub fn contains(&self, id: &str) -> (r: bool)
        requires
            self.wf(),
        ensures
            r == self@.contains_key(id@),
    {
        let r = self.find_index(id);
        proof {
            match r {
                Some(i) => {
                    lemma_map_of_index(self.entries@, cfg_key(), cfg_val(), i as int);
                },
                None => {
                    lemma_map_of_absent(self.entries@, cfg_key(), cfg_val(), id@);
                },
            }
        }
        r.is_some()
    }

    /// The entry for `id`, if any: exactly what the most recent write for
    /// `id` put there.
    pub fn get(&self, id: &str) -> (r: Option<&ContainerConfig>)
        requires
            self.wf(),
        ensures
            match r {
                Some(c) => self@.contains_key(id@) && c@ == self@[id@],
                None => !self@.contains_key(id@),
            },
    {
        match self.find_index(id) {
            Some(i) => {
                proof {
                    lemma_map_of_index(self.entries@, cfg_key(), cfg_val(), i as int);
                }
                Some(&self.entries[i])
            },
            None => {
                proof {
                    lemma_map_of_absent(self.entries@, cfg_key(), cfg_val(), id@);
                }
                None
            },
        }
    }

    /// A point-in-time copy of the entry for `id`, if any.
    pub fn snapshot(&self, id: &str) -> (r: Option<ContainerConfig>)
        requires
            self.wf(),
        ensures
            match r {
                Some(c) => self@.contains_key(id@) && c@ == self@[id@],
                None => !self@.contains_key(id@),
            },
    {
        match self.get(id) {
            Some(c) => Some(c.clone()),
            None => None,
        }
    }

    /// Insert or replace the entry under the configuration's own id.
    pub fn upsert(&mut self, cfg: ContainerConfig)
        requires
            old(self).wf(),
        ensures
            final(self).wf(),
            final(self)@ == old(self)@.insert(cfg@.container_id, cfg@),
    {
        let ghost oldseq = self.entries@;
        match self.find_index(cfg.container_id.as_str()) {
            Some(i) => {
                proof {
                    lemma_map_of_update(oldseq, cfg_key(), cfg_val(), i as int, cfg);
                }
                proof {
                    lemma_keys_unique_update(oldseq, cfg_key(), i as int, cfg);
                }
                self.entries.set(i, cfg);
            },
            None => {
                proof {
                    lemma_map_of_push(oldseq, cfg_key(), cfg_val(), cfg);
                    lemma_keys_unique_push(oldseq, cfg_key(), cfg);
                }
                self.entries.push(cfg);
            },
        }
    }

    /// Insert the entry only when `id` is still unknown: the idempotent
    /// initial-load write, which never clobbers a configuration already
    /// updated by an in-flight restart.
    pub fn insert_if_absent(&mut self, cfg: ContainerConfig) -> (added: bool)
        requires
            old(self).wf(),
        ensures
            final(self).wf(),
            added == !old(self)@.contains_key(cfg@.container_id),
            added ==> final(self)@ == old(self)@.insert(cfg@.container_id, cfg@),
            !added ==> final(self)@ == old(self)@,
    {
        if self.contains(cfg.container_id.as_str()) {
            false
        } else {
            self.upsert(cfg);
            true
        }
    }

    /// Delete and hand back the entry for `id`, if one existed.
    pub fn take(&mut self, id: &str) -> (r: Option<ContainerConfig>)
        requires
            old(self).wf(),
        ensures
            final(self).wf(),
            final(self)@ == old(self)@.remove(id@),
            match r {
                Some(c) => old(self)@.contains_key(id@) && c@ == old(self)@[id@],
                None => !old(self)@.contains_key(id@),
            },
    {
        let ghost oldseq = self.entries@;
        match self.find_index(id) {
            Some(i) => {
                proof {
                    lemma_map_of_index(oldseq, cfg_key(), cfg_val(), i as int);
                    lemma_map_of_remove(oldseq, cfg_key(), cfg_val(), i as int);
                }
                proof {
                    lemma_keys_unique_remove(oldseq, cfg_key(), i as int);
                }
                let c = self.entries.remove(i);
                Some(c)
            },
            None => {
                proof {
                    lemma_map_of_absent(oldseq, cfg_key(), cfg_val(), id@);
                    assert(old(self)@.remove(id@) =~= old(self)@);
                }
                None
            },
        }
    }

    /// Delete the entry for `id`; reports whether one existed.
    pub fn remove(&mut self, id: &str) -> (removed: bool)
        requires
            old(self).wf(),
        ensures
            final(self).wf(),
            removed == old(self)@.contains_key(id@),
            final(self)@ == old(self)@.remove(id@),
    {
        self.take(id).is_some()
    }

    /// Atomically move the entry for `old_id` to `new_id`, carrying the
    /// stored name, image and configuration forward and recording the new
    /// container's address: the store-side conclusion of a successful
    /// recreate-strategy restart.
    pub fn migrate(&mut self, old_id: &str, new_id: String, ip: Option<String>) -> (r: Result<
        (),
        CoreError,
    >)
        requires
            old(self).wf(),
        ensures
            final(self).wf(),
            match r {
                Ok(()) => old(self)@.contains_key(old_id@) && final(self)@ == old(
                    self,
                )@.remove(old_id@).insert(
                    new_id@,
                    migrated_view(old(self)@[old_id@], new_id@, ip.deep_view()),
                ),
                Err(e) => {
                    &&& e == CoreError::NotFound
                    &&& !old(self)@.contains_key(old_id@)
                    &&& final(self)@ == old(self)@
                },
            },
    {
        match self.take(old_id) {
            Some(c) => {
                let moved = ContainerConfig {
                    container_id: new_id,
                    name: c.name,
                    image: c.image,
                    host_config: c.host_config,
                    config: c.config,
                    ip_address: ip,
                };
                self.upsert(moved);
                Ok(())
            },
            None => Err(CoreError::NotFound),
        }
    }

    /// A point-in-time copy of every entry: one per known container id, each
    /// exactly the map's value for its id.
    pub fn all(&self) -> (r: Vec<ContainerConfig>)
        requires
            self.wf(),
        ensures
            r@.len() == self@.dom().len(),
            forall|i: int|
                0 <= i < r@.len() ==> self@.contains_key((#[trigger] r@[i])@.container_id)
                    && r@[i]@ == self@[r@[i]@.container_id],
            forall|k: Seq<char>|
                self@.contains_key(k) ==> exists|i: int|
                    0 <= i < r@.len() && (#[trigger] r@[i])@.container_id == k,
            forall|i: int, j: int|
                0 <= i < j < r@.len() ==> (#[trigger] r@[i])@.container_id
                    != (#[trigger] r@[j])@.container_id,
    {
        let mut out: Vec<ContainerConfig> = Vec::new();
        let mut i: usize = 0;
        while i < self.entries.len()
            invariant
                i <= self.entries@.len(),
                out@.len() == i,
                forall|j: int| 0 <= j < i ==> (#[trigger] out@[j])@ == self.entries@[j]@,
            decreases self.entries@.len() - i,
        {
            out.push(self.entries[i].clone());
            i = i + 1;
        }
        proof {
            lemma_store_map_dom_len(self.entries@);
            assert forall|j: int| 0 <= j < out@.len() implies self@.contains_key(
                (#[trigger] out@[j])@.container_id,
            ) && out@[j]@ == self@[out@[j]@.container_id] by {
                lemma_map_of_index(self.entries@, cfg_key(), cfg_val(), j);
            }
            assert forall|k: Seq<char>| self@.contains_key(k) implies exists|j: int|
                0 <= j < out@.len() && (#[trigger] out@[j])@.container_id == k by {
                lemma_map_of_contains(self.entries@, cfg_key(), cfg_val(), k);
                let j = choose|j: int|
                    0 <= j < self.entries@.len() && cfg_key()(#[trigger] self.entries@[j]) == k;
                assert((out@[j])@.container_id == k);
            }
        }
        out
    }

    /// Each stored view carries the id it is filed under.
    pub proof fn lemma_ids_consistent(&self)
        requires
            self.wf(),
        ensures
            forall|k: Seq<char>|
                #[trigger] self@.contains_key(k) ==> self@[k].container_id == k,
    {
        assert forall|k: Seq<char>| #[trigger] self@.contains_key(k) implies self@[
            k
        ].container_id == k by {
            lemma_map_of_contains(self.entries@, cfg_key(), cfg_val(), k);
            let j = choose|j: int|
                0 <= j < self.entries@.len() && cfg_key()(#[trigger] self.entries@[j]) == k;
            lemma_map_of_index(self.entries@, cfg_key(), cfg_val(), j);
        }
    }

    /// How many containers the store knows.
    pub fn len(&self) -> (r: usize)
        requires
            self.wf(),
        ensures
            r == self@.dom().len(),
    {
        proof {
            lemma_store_map_dom_len(self.entries@);
        }
        self.entries.len()
    }
}

/// The view that a successful recreate files under the new id: the old
/// entry's name, image and configuration, the new id and address.
pub open spec fn migrated_view(c: ConfigView, new_id: Seq<char>, ip: Option<Seq<char>>) -> ConfigView {
    ConfigView {
        container_id: new_id,
        name: c.name,
        image: c.image,
        host_config: c.host_config,
        config: c.config,
        ip_address: ip,
    }
}

/// Law: a read never sees a partial entry. After a write of `c` under its
/// id, reading that id yields exactly `c`; the presence and value of every
/// other id are untouched.
pub proof fn lemma_store_reflects_last_write(
    m: Map<Seq<char>, ConfigView>,
    c: ConfigView,
    k: Seq<char>,
)
    ensures
        m.insert(c.container_id, c).contains_key(c.container_id),
        m.insert(c.container_id, c)[c.container_id] == c,
        k != c.container_id ==> (m.insert(c.container_id, c).contains_key(k) <==> m.contains_key(
            k,
        )),
        k != c.container_id && m.contains_key(k) ==> m.insert(c.container_id, c)[k] == m[k],
{
}

/// Law: after a successful recreate-strategy restart of id `a` that produced
/// id `b`, the old id is gone from the store and the new entry preserves the
/// stored name, image and configuration.
pub proof fn lemma_migration_preserves_identity(
    m: Map<Seq<char>, ConfigView>,
    a: Seq<char>,
    b: Seq<char>,
    ip: Option<Seq<char>>,
)
    requires
        m.contains_key(a),
        a != b,
    ensures
        ({
            let moved = m.remove(a).insert(b, migrated_view(m[a], b, ip));
            &&& !moved.contains_key(a)
            &&& moved.contains_key(b)
            &&& moved[b].name == m[a].name
            &&& moved[b].image == m[a].image
            &&& moved[b].config == m[a].config
            &&& moved[b].host_config == m[a].host_config
            &&& moved[b].container_id == b
        }),
{
}

/// The map after a sequence of upserts, applied first to last.
pub open spec fn apply_upserts(
    m: Map<Seq<char>, ConfigView>,
    cs: Seq<ConfigView>,
) -> Map<Seq<char>, ConfigView>
    decreases cs.len(),
{
    if cs.len() == 0 {
        m
    } else {
        apply_upserts(m, cs.drop_last()).insert(cs.last().container_id, cs.last())
    }
}

/// Whether some configuration in `cs` is filed under `k`.
pub open spec fn upserts_touch(cs: Seq<ConfigView>, k: Seq<char>) -> bool {
    exists|i: int| 0 <= i < cs.len() && (#[trigger] cs[i]).container_id == k
}

/// The last configuration in `cs` filed under `k`.
pub open spec fn last_upsert(cs: Seq<ConfigView>, k: Seq<char>) -> ConfigView
    decreases cs.len(),
{
    if cs.len() == 0 {
        arbitrary()
    } else if cs.last().container_id == k {
        cs.last()
    } else {
        last_upsert(cs.drop_last(), k)
    }
}

/// A key no upsert touches keeps its old state; a touched key ends at the
/// last configuration written to it, whatever the store held before.
proof fn lemma_apply_upserts_pointwise(m: Map<Seq<char>, ConfigView>, cs: Seq<ConfigView>, k: Seq<char>)
    ensures
        !upserts_touch(cs, k) ==> apply_upserts(m, cs).contains_key(k) == m.contains_key(k),
        !upserts_touch(cs, k) && m.contains_key(k) ==> apply_upserts(m, cs)[k] == m[k],
        upserts_touch(cs, k) ==> apply_upserts(m, cs).contains_key(k) && apply_upserts(m, cs)[k]
            == last_upsert(cs, k),
    decreases cs.len(),
{
    if cs.len() > 0 {
        lemma_apply_upserts_pointwise(m, cs.drop_last(), k);
        if cs.last().container_id == k {
        } else {
            assert(upserts_touch(cs, k) ==> upserts_touch(cs.drop_last(), k)) by {
                if upserts_touch(cs, k) {
                    let i = choose|i: int|
                        0 <= i < cs.len() && (#[trigger] cs[i]).container_id == k;
                    assert(i < cs.len() - 1);
                    assert(cs.drop_last()[i].container_id == k);
                }
            }
            assert(upserts_touch(cs.drop_last(), k) ==> upserts_touch(cs, k)) by {
                if upserts_touch(cs.drop_last(), k) {
                    let i = choose|i: int|
                        0 <= i < cs.drop_last().len() && (#[trigger] cs.drop_last()[i]).container_id
                            == k;
                    assert(cs[i].container_id == k);
                }
            }
        }
    }
}

/// Law: the startup sweep is idempotent on the store. Upserting the same
/// sequence of configurations a second time changes nothing: with the engine
/// state unchanged, a repeated sweep rewrites each id's entry to the value it
/// already has, and no id gains a second entry.
pub proof fn lemma_sweep_idempotent(m: Map<Seq<char>, ConfigView>, cs: Seq<ConfigView>)
    ensures
        apply_upserts(apply_upserts(m, cs), cs) == apply_upserts(m, cs),
{
    let once = apply_upserts(m, cs);
    let twice = apply_upserts(once, cs);
    assert forall|k: Seq<char>| #[trigger] twice.contains_key(k) == once.contains_key(k) && (
        twice.contains_key(k) ==> twice[k] == once[k]) by {
        lemma_apply_upserts_pointwise(m, cs, k);
        lemma_apply_upserts_pointwise(once, cs, k);
    }
    assert(twice =~= once);
}

/// With distinct keys, the map has exactly one key per entry.
proof fn lemma_store_map_dom_len(s: Seq<ContainerConfig>)
    requires
        keys_unique(s, cfg_key()),
    ensures
        store_map(s).dom().finite(),
        store_map(s).dom().len() == s.len(),
    decreases s.len(),
{
    if s.len() == 0 {
        assert(store_map(s).dom() =~= Set::<Seq<char>>::empty());
    } else {
        assert(keys_unique(s.drop_last(), cfg_key())) by {
            assert(forall|m: int, n: int|
                0 <= m < n < s.drop_last().len() ==> cfg_key()(#[trigger] s.drop_last()[m])
                    != cfg_key()(#[trigger] s.drop_last()[n]));
        }
        lemma_store_map_dom_len(s.drop_last());
        lemma_map_of_absent(s.drop_last(), cfg_key(), cfg_val(), s.last().container_id@);
        assert(store_map(s).dom() =~= store_map(s.drop_last()).dom().insert(
            s.last().container_id@,
        ));
    }
}

} // verus!
