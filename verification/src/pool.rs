//! The pool of live connections: an arena keyed by small integer ids that
//! are handed out again once their connection is gone.
//!
//! The arena itself is a `slab::Slab`. This module states what the pool is
//! as a mathematical value, proves what the server relies on, and declares
//! the few slab operations that the server calls.
use vstd::prelude::*;
use slab::Slab;
use crate::connection::{Connection, ConnectionView};

verus! {

/// The pool as a mathematical value.
pub struct PoolView {
    /// The live connections by id.
    pub live: Map<usize, ConnectionView>,
    /// The released ids that no connection has taken again, the one released
    /// last in front.
    pub vacant: Seq<usize>,
    /// How many ids were ever handed out for the first time: fresh ids are
    /// `0`, `1`, `2` and so on.
    pub slots: nat,
}

impl PoolView {
    /// The pool that has never held a connection.
    pub open spec fn empty() -> PoolView {
        PoolView { live: Map::empty(), vacant: Seq::empty(), slots: 0 }
    }

    /// The id that the next connection gets: the id released last, or a
    /// fresh one where no released id is waiting.
    pub open spec fn next_id(self) -> nat {
        if self.vacant.len() > 0 {
            self.vacant[0] as nat
        } else {
            self.slots
        }
    }

    /// The pool after `connection` was put in under `key`, where `key` is
    /// `next_id()`.
    pub open spec fn insert(self, key: usize, connection: ConnectionView) -> PoolView {
        if self.vacant.len() > 0 {
            PoolView {
                live: self.live.insert(key, connection),
                vacant: self.vacant.drop_first(),
                slots: self.slots,
            }
        } else {
            PoolView {
                live: self.live.insert(key, connection),
                vacant: self.vacant,
                slots: self.slots + 1,
            }
        }
    }

    /// The pool after the connection under `key` has changed to `connection`.
    pub open spec fn update(self, key: usize, connection: ConnectionView) -> PoolView {
        PoolView { live: self.live.insert(key, connection), vacant: self.vacant, slots: self.slots }
    }

    /// The pool after the connection under `key` was taken out: the id is
    /// the first to be handed out again, and no other id is touched.
    pub open spec fn remove(self, key: usize) -> PoolView {
        PoolView {
            live: self.live.remove(key),
            vacant: seq![key] + self.vacant,
            slots: self.slots,
        }
    }

    /// The number of live connections.
    pub open spec fn len(self) -> nat {
        self.live.dom().len()
    }

    /// What holds of every pool: finitely many connections are live, each
    /// knows the id it is kept under, every id in use or released was handed
    /// out before, no released id is live or listed twice, and every id that
    /// was handed out is either live or released.
    pub open spec fn wf(self) -> bool {
        &&& self.live.dom().finite()
        &&& forall|k: usize| #[trigger]
            self.live.contains_key(k) ==> (k as nat) < self.slots && self.live[k].id == k
        &&& forall|i: int|
            0 <= i < self.vacant.len() ==> (#[trigger] self.vacant[i] as nat) < self.slots
                && !self.live.contains_key(self.vacant[i])
        &&& self.vacant.no_duplicates()
        &&& self.live.dom().len() + self.vacant.len() == self.slots
    }
}

/// `ids` lists the members of `live` in ascending order, each once.
pub open spec fn is_roster(ids: Seq<usize>, live: Set<usize>) -> bool {
    &&& forall|i: int, j: int| 0 <= i < j < ids.len() ==> ids[i] < ids[j]
    &&& forall|k: usize| live.contains(k) <==> ids.contains(k)
}

/// Putting a connection in under the next id keeps the pool well formed,
/// adds one live connection and touches no other.
pub proof fn lemma_insert_wf(pool: PoolView, connection: ConnectionView)
    requires
        pool.wf(),
        connection.id as nat == pool.next_id(),
    ensures
        !pool.live.contains_key(connection.id),
        pool.insert(connection.id, connection).wf(),
        pool.insert(connection.id, connection).len() == pool.len() + 1,
{
    let key = connection.id;
    let after = pool.insert(key, connection);
    if pool.vacant.len() > 0 {
        assert(pool.vacant[0] == key);
        assert forall|i: int| 0 <= i < after.vacant.len() implies (#[trigger] after.vacant[i]
            as nat) < after.slots && !after.live.contains_key(after.vacant[i]) by {
            assert(after.vacant[i] == pool.vacant[i + 1]);
        }
        assert forall|i: int, j: int|
            0 <= i < after.vacant.len() && 0 <= j < after.vacant.len() && i != j implies
            after.vacant[i] != after.vacant[j] by {
            assert(after.vacant[i] == pool.vacant[i + 1]);
            assert(after.vacant[j] == pool.vacant[j + 1]);
        }
    }
}

/// Changing a live connection without changing its id keeps the pool well
/// formed and the set of live ids as it was.
pub proof fn lemma_update_wf(pool: PoolView, key: usize, connection: ConnectionView)
    requires
        pool.wf(),
        pool.live.contains_key(key),
        connection.id == key,
    ensures
        pool.update(key, connection).wf(),
        pool.update(key, connection).live.dom() == pool.live.dom(),
{
    assert(pool.update(key, connection).live.dom() =~= pool.live.dom());
}

/// Taking a live connection out keeps the pool well formed, takes one live
/// connection away and touches no other.
pub proof fn lemma_remove_wf(pool: PoolView, key: usize)
    requires
        pool.wf(),
        pool.live.contains_key(key),
    ensures
        pool.remove(key).wf(),
        pool.remove(key).len() + 1 == pool.len(),
        forall|k: usize| k != key ==> pool.remove(key).live.contains_key(k) == pool.live.contains_key(k),
        forall|k: usize| k != key && pool.live.contains_key(k) ==> pool.remove(key).live[k] == pool.live[k],
{
    let after = pool.remove(key);
    assert forall|i: int| 0 <= i < after.vacant.len() implies (#[trigger] after.vacant[i] as nat)
        < after.slots && !after.live.contains_key(after.vacant[i]) by {
        if i > 0 {
            assert(after.vacant[i] == pool.vacant[i - 1]);
        }
    }
    assert forall|i: int, j: int|
        0 <= i < after.vacant.len() && 0 <= j < after.vacant.len() && i != j implies
        after.vacant[i] != after.vacant[j] by {
        if i > 0 {
            assert(after.vacant[i] == pool.vacant[i - 1]);
        }
        if j > 0 {
            assert(after.vacant[j] == pool.vacant[j - 1]);
        }
    }
}

/// Ids are unique among the live connections: two live connections with the
/// same id are one and the same.
pub proof fn lemma_ids_distinct(pool: PoolView, a: usize, b: usize)
    requires
        pool.wf(),
        pool.live.contains_key(a),
        pool.live.contains_key(b),
        pool.live[a].id == pool.live[b].id,
    ensures
        a == b,
{
}

/// An id is reused: once the connection under `key` is taken out, `key` is
/// the id that the next connection gets, and that connection is then the
/// one found under `key`.
pub proof fn lemma_removed_id_is_reused(pool: PoolView, key: usize, connection: ConnectionView)
    requires
        pool.live.contains_key(key),
    ensures
        pool.remove(key).next_id() == key,
        pool.remove(key).insert(key, connection).live.contains_key(key),
        pool.remove(key).insert(key, connection).live[key] == connection,
        pool.remove(key).insert(key, connection).vacant == pool.vacant,
{
    assert(pool.remove(key).vacant[0] == key);
    assert(pool.remove(key).vacant.drop_first() =~= pool.vacant);
}

/// A roster has one entry for each live connection.
pub proof fn lemma_roster_len(ids: Seq<usize>, live: Set<usize>)
    requires
        is_roster(ids, live),
    ensures
        ids.no_duplicates(),
        live.finite(),
        ids.len() == live.len(),
        ids.to_set() == live,
{
    assert(ids.no_duplicates());
    assert(ids.to_set() =~= live);
    ids.unique_seq_to_set();
}

/// `slab::Slab`, the arena that holds the connections.
#[verifier::external_type_specification]
#[verifier::external_body]
#[verifier::reject_recursive_types(T)]
pub struct ExSlab<T>(Slab<T>);

/// The connections that a slab holds, by key.
pub uninterp spec fn slab_entries(pool: Slab<Connection>) -> Map<usize, ConnectionView>;

/// The slab's stack of released keys, the top in front.
pub uninterp spec fn slab_vacant(pool: Slab<Connection>) -> Seq<usize>;

/// The number of slots that a slab has made so far, occupied or released.
pub uninterp spec fn slab_slots(pool: Slab<Connection>) -> nat;

/// A slab as a pool.
pub open spec fn slab_view(pool: Slab<Connection>) -> PoolView {
    PoolView { live: slab_entries(pool), vacant: slab_vacant(pool), slots: slab_slots(pool) }
}

/// The largest number of slots up to which `slab_insert` may be asked for
/// one more.
pub const SLOT_LIMIT: usize = 256;

/// `Slab::new`: a slab without slots.
#[verifier::external_body]
pub(crate) fn slab_new() -> (pool: Slab<Connection>)
    ensures
        slab_entries(pool) == (Map::<usize, ConnectionView>::empty()),
        slab_vacant(pool) == (Seq::<usize>::empty()),
        slab_slots(pool) == 0,
{
    Slab::new()
}

/// `Slab::vacant_key`: the key that the next insertion will use, which is
/// the top of the stack of released keys or, where that stack is empty, the
/// number of slots.
#[verifier::external_body]
pub(crate) fn slab_vacant_key(pool: &Slab<Connection>) -> (key: usize)
    ensures
        key as nat == (if slab_vacant(*pool).len() > 0 {
            slab_vacant(*pool)[0] as nat
        } else {
            slab_slots(*pool)
        }),
{
    pool.vacant_key()
}

/// `Slab::contains`: whether a value is kept under the key.
#[verifier::external_body]
pub(crate) fn slab_contains(pool: &Slab<Connection>, key: usize) -> (found: bool)
    ensures
        found == slab_entries(*pool).contains_key(key),
{
    pool.contains(key)
}

/// `Slab::insert`: stores the value under the vacant key and returns that
/// key. The key is popped from the stack of released keys or, where that
/// stack is empty, a new slot is made. The slab panics only where its
/// storage would outgrow `isize::MAX` bytes, which a few hundred slots
/// never do.
#[verifier::external_body]
pub(crate) fn slab_insert(pool: &mut Slab<Connection>, connection: Connection) -> (key: usize)
    requires
        slab_slots(*old(pool)) <= SLOT_LIMIT,
    ensures
        key as nat == (if slab_vacant(*old(pool)).len() > 0 {
            slab_vacant(*old(pool))[0] as nat
        } else {
            slab_slots(*old(pool))
        }),
        slab_entries(*final(pool)) == slab_entries(*old(pool)).insert(key, connection@),
        slab_vacant(*final(pool)) == (if slab_vacant(*old(pool)).len() > 0 {
            slab_vacant(*old(pool)).drop_first()
        } else {
            slab_vacant(*old(pool))
        }),
        slab_slots(*final(pool)) == (if slab_vacant(*old(pool)).len() > 0 {
            slab_slots(*old(pool))
        } else {
            slab_slots(*old(pool)) + 1
        }),
{
    pool.insert(connection)
}

/// `Slab::get_mut`: a mutable reference to the value under the key, or
/// `None` where there is none. Nothing but that value can change through
/// the reference.
#[verifier::external_body]
pub(crate) fn slab_get_mut(pool: &mut Slab<Connection>, key: usize) -> (found: Option<
    &mut Connection,
>)
    ensures
        found is Some <==> slab_entries(*old(pool)).contains_key(key),
        found is Some ==> found.unwrap()@ == slab_entries(*old(pool))[key],
        found is Some ==> slab_entries(*final(pool)) == slab_entries(*old(pool)).insert(
            key,
            final(found.unwrap())@,
        ),
        found is None ==> slab_entries(*final(pool)) == slab_entries(*old(pool)),
        slab_vacant(*final(pool)) == slab_vacant(*old(pool)),
        slab_slots(*final(pool)) == slab_slots(*old(pool)),
{
    pool.get_mut(key)
}

/// `Slab::remove`: takes the value under the key out and returns it; the
/// key goes on top of the stack of released keys. It panics where no value
/// is kept under the key, which the precondition excludes.
#[verifier::external_body]
pub(crate) fn slab_remove(pool: &mut Slab<Connection>, key: usize) -> (connection: Connection)
    requires
        slab_entries(*old(pool)).contains_key(key),
    ensures
        connection@ == slab_entries(*old(pool))[key],
        slab_entries(*final(pool)) == slab_entries(*old(pool)).remove(key),
        slab_vacant(*final(pool)) == seq![key] + slab_vacant(*old(pool)),
        slab_slots(*final(pool)) == slab_slots(*old(pool)),
{
    pool.remove(key)
}

/// `Slab::iter`, of which only the keys are kept: the iterator walks the
/// slots in ascending order and yields the occupied ones.
#[verifier::external_body]
pub(crate) fn slab_keys(pool: &Slab<Connection>) -> (keys: Vec<usize>)
    ensures
        is_roster(keys@, slab_entries(*pool).dom()),
{
    pool.iter().map(|(key, _)| key).collect()
}

} // verus!
