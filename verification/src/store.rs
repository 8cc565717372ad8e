//! The credential store: a transactional mapping from account identifier
//! to credential record, kept ordered by identifier, and the sole
//! authority for the single-active-account invariant.
//!
//! The invariants, stated over the store's view:
//! - identifiers strictly increase with the index (so they are unique,
//!   and listing order is deterministic);
//! - the number of records with `active == true` is 0 when the store is
//!   empty and exactly 1 otherwise.
//!
//! Whenever an operation would leave a non-empty store with no active
//! record, the store promotes the record with the smallest identifier.
//! That one documented rule replaces any iteration-order-dependent choice.

use vstd::prelude::*;

use crate::credentials::Credentials;
use crate::credentials::with_active;
use crate::errors::AuthError;

verus! {

/// Identifiers strictly increase with the index.
pub open spec fn ids_sorted(s: Seq<Credentials>) -> bool {
    forall|i: int, j: int| 0 <= i < j < s.len() ==> s[i].id < s[j].id
}

/// No two distinct records carry the active flag.
pub open spec fn at_most_one_active(s: Seq<Credentials>) -> bool {
    forall|i: int, j: int|
        0 <= i < s.len() && 0 <= j < s.len() && s[i].active && s[j].active ==> i == j
}

/// Some record carries the active flag.
pub open spec fn some_active(s: Seq<Credentials>) -> bool {
    exists|i: int| 0 <= i < s.len() && s[i].active
}

/// The store's well-formedness: ordered identifiers and the
/// single-active-account invariant.
pub open spec fn store_ok(s: Seq<Credentials>) -> bool {
    &&& ids_sorted(s)
    &&& at_most_one_active(s)
    &&& s.len() > 0 ==> some_active(s)
}

/// Some record has the given identifier.
pub open spec fn contains_id(s: Seq<Credentials>, id: u128) -> bool {
    exists|i: int| 0 <= i < s.len() && s[i].id == id
}

/// The index of the record with the given identifier (unique when the
/// identifiers are ordered).
pub open spec fn index_of_id(s: Seq<Credentials>, id: u128) -> int {
    choose|i: int| 0 <= i < s.len() && s[i].id == id
}

/// `p` is where a record with identifier `id` belongs in the order.
pub open spec fn valid_insert_pos(s: Seq<Credentials>, id: u128, p: int) -> bool {
    &&& 0 <= p <= s.len()
    &&& forall|k: int| 0 <= k < p ==> s[k].id < id
    &&& p < s.len() ==> id < s[p].id
}

/// The position where a record with identifier `id` is inserted.
pub open spec fn insert_pos(s: Seq<Credentials>, id: u128) -> int {
    choose|p: int| valid_insert_pos(s, id, p)
}

/// Every record's active flag set to "is this the named identifier".
pub open spec fn set_active_id(s: Seq<Credentials>, id: u128) -> Seq<Credentials> {
    s.map_values(|c: Credentials| with_active(c, c.id == id))
}

/// The store's normalization step: a non-empty store with no active
/// record promotes the record with the smallest identifier.
pub open spec fn promote_if_inactive(s: Seq<Credentials>) -> Seq<Credentials> {
    if s.len() > 0 && !some_active(s) {
        s.update(0, with_active(s[0], true))
    } else {
        s
    }
}

/// The record placed at its position, before any active-flag repair.
pub open spec fn upsert_base(s: Seq<Credentials>, r: Credentials) -> Seq<Credentials> {
    if contains_id(s, r.id) {
        s.update(index_of_id(s, r.id), r)
    } else {
        s.insert(insert_pos(s, r.id), r)
    }
}

/// What `upsert` leaves in the store: the record placed at its position;
/// if it is active, every other record deactivated; if it is not and no
/// active record remains, the smallest identifier promoted.
pub open spec fn spec_upsert(s: Seq<Credentials>, r: Credentials) -> Seq<Credentials> {
    if r.active {
        set_active_id(upsert_base(s, r), r.id)
    } else {
        promote_if_inactive(upsert_base(s, r))
    }
}

/// What `remove_user` leaves in the store: the record deleted if present,
/// and the smallest remaining identifier promoted if the active record
/// was the one deleted.
pub open spec fn spec_remove(s: Seq<Credentials>, id: u128) -> Seq<Credentials> {
    if contains_id(s, id) {
        promote_if_inactive(s.remove(index_of_id(s, id)))
    } else {
        s
    }
}

/// The single active record, if any.
pub open spec fn spec_active(s: Seq<Credentials>) -> Option<Credentials> {
    if some_active(s) {
        Some(s[choose|i: int| 0 <= i < s.len() && s[i].active])
    } else {
        None
    }
}

/// Ordered identifiers stay ordered when a record is placed at its
/// position.
proof fn lemma_insert_sorted(s: Seq<Credentials>, r: Credentials, p: int)
    requires
        ids_sorted(s),
        valid_insert_pos(s, r.id, p),
    ensures
        ids_sorted(s.insert(p, r)),
        contains_id(s.insert(p, r), r.id),
{
    let t = s.insert(p, r);
    s.insert_ensures(p, r);
    assert(t[p] == r);
    assert forall|i: int, j: int| 0 <= i < j < t.len() implies t[i].id < t[j].id by {
        if i > p {
            assert(t[(i - 1) + 1] == s[i - 1]);
        }
        if j > p {
            assert(t[(j - 1) + 1] == s[j - 1]);
        }
        if i < p && j == p {
            assert(s[i].id < r.id);
        }
        if i == p && j > p {
            assert(p < s.len());
            if p < j - 1 {
                assert(s[p].id < s[j - 1].id);
            }
        }
        if i < p && j > p {
            if i < j - 1 {
                assert(s[i].id < s[j - 1].id);
            }
        }
    }
}

/// Setting every active flag to "is this the named identifier" yields a
/// well-formed store when the identifier is present.
proof fn lemma_set_active_id_ok(s: Seq<Credentials>, id: u128)
    requires
        ids_sorted(s),
        contains_id(s, id),
    ensures
        store_ok(set_active_id(s, id)),
{
    let t = set_active_id(s, id);
    assert forall|i: int, j: int| 0 <= i < j < t.len() implies t[i].id < t[j].id by {
        assert(t[i] == with_active(s[i], s[i].id == id));
        assert(t[j] == with_active(s[j], s[j].id == id));
    }
    assert forall|i: int, j: int|
        0 <= i < t.len() && 0 <= j < t.len() && t[i].active && t[j].active implies i == j by {
        assert(t[i] == with_active(s[i], s[i].id == id));
        assert(t[j] == with_active(s[j], s[j].id == id));
        if i < j {
            assert(s[i].id < s[j].id);
        }
        if j < i {
            assert(s[j].id < s[i].id);
        }
    }
    let w = choose|i: int| 0 <= i < s.len() && s[i].id == id;
    assert(t[w] == with_active(s[w], true));
    assert(t[w].active);
    assert(some_active(t));
}

/// The persistent store of account credentials. All mutating operations
/// require a well-formed store and re-establish well-formedness, so the
/// single-active invariant holds at every operation boundary.
pub struct CredentialStore {
    records: Vec<Credentials>,
}

impl View for CredentialStore {
    type V = Seq<Credentials>;

    closed spec fn view(&self) -> Seq<Credentials> {
        self.records@
    }
}

impl CredentialStore {
    /// Both invariants hold of the store's contents.
    pub open spec fn wf(&self) -> bool {
        store_ok(self@)
    }

    /// A fresh, empty store.
    pub fn new() -> (s: Self)
        ensures
            s@ == Seq::<Credentials>::empty(),
            s.wf(),
    {
        let s = CredentialStore { records: Vec::new() };
        proof {
            assert(s.records@ =~= Seq::<Credentials>::empty());
        }
        s
    }

    /// The index of the record with the given identifier, if present.
    fn find_index(&self, id: u128) -> (r: Option<usize>)
        ensures
            match r {
                Some(i) => i < self@.len() && self@[i as int].id == id,
                None => !contains_id(self@, id),
            },
    {
        let mut i: usize = 0;
        while i < self.records.len()
            invariant
                i <= self@.len(),
                forall|k: int| 0 <= k < i ==> self@[k].id != id,
            decreases self@.len() - i,
        {
            if self.records[i].id == id {
                return Some(i);
            }
            i += 1;
        }
        None
    }

    /// Whether some record carries the active flag.
    fn has_active(&self) -> (r: bool)
        ensures
            r == some_active(self@),
    {
        let mut i: usize = 0;
        while i < self.records.len()
            invariant
                i <= self@.len(),
                forall|k: int| 0 <= k < i ==> !self@[k].active,
            decreases self@.len() - i,
        {
            if self.records[i].active {
                return true;
            }
            i += 1;
        }
        false
    }

    /// A copy of every stored record, in identifier order.
    pub fn users(&self) -> (r: Vec<Credentials>)
        ensures
            r@ == self@,
    {
        let mut out: Vec<Credentials> = Vec::new();
        let mut i: usize = 0;
        while i < self.records.len()
            invariant
                i <= self@.len(),
                out@ =~= self@.subrange(0, i as int),
            decreases self@.len() - i,
        {
            out.push(self.records[i].clone());
            i += 1;
        }
        proof {
            assert(out@ =~= self@);
        }
        out
    }

    /// The single active record, or `None` when the store is empty.
    pub fn get_active(&self) -> (r: Option<Credentials>)
        requires
            self.wf(),
        ensures
            r == spec_active(self@),
            r is None <==> self@.len() == 0,
    {
        let mut i: usize = 0;
        while i < self.records.len()
            invariant
                self.wf(),
                i <= self@.len(),
                forall|k: int| 0 <= k < i ==> !self@[k].active,
            decreases self@.len() - i,
        {
            if self.records[i].active {
                proof {
                    assert(self@[i as int].active);
                    assert(some_active(self@));
                    let w = choose|j: int| 0 <= j < self@.len() && self@[j].active;
                    assert(0 <= w < self@.len() && self@[w].active);
                    assert(at_most_one_active(self@));
                    assert(w == i as int);
                }
                return Some(self.records[i].clone());
            }
            i += 1;
        }
        proof {
            assert(!some_active(self@));
            if self@.len() > 0 {
                assert(some_active(self@));
            }
        }
        None
    }

    /// The identifier of the active account, or `None` when the store is
    /// empty.
    pub fn get_default_user(&self) -> (r: Option<u128>)
        requires
            self.wf(),
        ensures
            r == match spec_active(self@) {
                Some(c) => Some(c.id),
                None => None::<u128>,
            },
            r is None <==> self@.len() == 0,
    {
        match self.get_active() {
            Some(c) => Some(c.id),
            None => None,
        }
    }

    /// One pass that makes the named identifier the single active record.
    fn set_all_active_flags(&mut self, id: u128)
        ensures
            final(self)@ == set_active_id(old(self)@, id),
    {
        let ghost s0 = self@;
        let mut i: usize = 0;
        while i < self.records.len()
            invariant
                i <= s0.len(),
                self@.len() == s0.len(),
                forall|k: int| 0 <= k < i ==> self@[k] == with_active(s0[k], s0[k].id == id),
                forall|k: int| i <= k < s0.len() ==> self@[k] == s0[k],
            decreases s0.len() - i,
        {
            let mut c = self.records[i].clone();
            c.active = c.id == id;
            self.records.set(i, c);
            i += 1;
        }
        proof {
            assert(self@ =~= set_active_id(s0, id));
        }
    }

    /// Inserts or replaces the record for its identifier, then repairs the
    /// active flags: an active record deactivates every other one; if no
    /// active record remains, the smallest identifier is promoted. The
    /// single-active invariant therefore holds however the record is
    /// flagged.
    pub fn upsert(&mut self, r: Credentials)
        requires
            old(self).wf(),
        ensures
            final(self).wf(),
            final(self)@ == spec_upsert(old(self)@, r),
    {
        let ghost s0 = self@;
        let rid = r.id;
        let r_active = r.active;
        let mut pos: usize = 0;
        while pos < self.records.len() && self.records[pos].id < rid
            invariant
                self@ == s0,
                pos <= s0.len(),
                forall|k: int| 0 <= k < pos ==> s0[k].id < rid,
            decreases s0.len() - pos,
        {
            pos += 1;
        }
        if pos < self.records.len() && self.records[pos].id == rid {
            proof {
                assert(s0[pos as int].id == rid);
                assert(contains_id(s0, rid));
                let j = index_of_id(s0, rid);
                assert(0 <= j < s0.len() && s0[j].id == rid);
                if j < pos as int {
                    assert(s0[j].id < rid);
                }
                if (pos as int) < j {
                    assert(s0[pos as int].id < s0[j].id);
                }
                assert(j == pos as int);
            }
            self.records.set(pos, r);
        } else {
            proof {
                assert forall|k: int| 0 <= k < s0.len() implies s0[k].id != rid by {
                    if pos as int <= k {
                        assert((pos as int) < s0.len());
                        assert(s0[pos as int].id >= rid);
                        assert(s0[pos as int].id != rid);
                        if (pos as int) < k {
                            assert(s0[pos as int].id < s0[k].id);
                        }
                    }
                }
                assert(!contains_id(s0, rid));
                assert(valid_insert_pos(s0, rid, pos as int));
                let p = insert_pos(s0, rid);
                assert(valid_insert_pos(s0, rid, p));
                if p < pos as int {
                    assert(s0[p].id < rid);
                }
                if (pos as int) < p {
                    assert(s0[pos as int].id < rid);
                }
                assert(p == pos as int);
            }
            self.records.insert(pos, r);
        }
        let ghost base = self@;
        proof {
            assert(base == upsert_base(s0, r));
            if contains_id(s0, rid) {
                assert forall|i: int, j: int| 0 <= i < j < base.len() implies
                    base[i].id < base[j].id by {
                    assert(base[i] == if i == pos as int { r } else { s0[i] });
                    assert(base[j] == if j == pos as int { r } else { s0[j] });
                }
                assert(base[pos as int] == r);
                assert(contains_id(base, rid));
            } else {
                lemma_insert_sorted(s0, r, pos as int);
            }
            assert(ids_sorted(base));
        }
        if r_active {
            self.set_all_active_flags(rid);
            proof {
                lemma_set_active_id_ok(base, rid);
                assert(self@ == spec_upsert(s0, r));
            }
        } else {
            let needs_promotion = !self.has_active();
            if needs_promotion {
                proof {
                    assert(base.len() > 0);
                }
                let mut c = self.records[0].clone();
                c.active = true;
                self.records.set(0, c);
                proof {
                    assert(self@ == base.update(0, with_active(base[0], true)));
                    assert(self@ == promote_if_inactive(base));
                    assert forall|i: int, j: int|
                        0 <= i < self@.len() && 0 <= j < self@.len() && self@[i].active
                            && self@[j].active implies i == j by {
                        if i > 0 {
                            assert(self@[i] == base[i]);
                            assert(some_active(base));
                        }
                        if j > 0 {
                            assert(self@[j] == base[j]);
                            assert(some_active(base));
                        }
                    }
                    assert(self@[0].active);
                    assert(some_active(self@));
                    assert forall|i: int, j: int| 0 <= i < j < self@.len() implies
                        self@[i].id < self@[j].id by {
                        assert(self@[i] == if i == 0 { with_active(base[0], true) } else { base[i] });
                        assert(self@[j] == base[j]);
                    }
                }
            } else {
                proof {
                    assert(self@ == promote_if_inactive(base));
                    // the single active record of the old store survives in `base`
                    assert forall|i: int, j: int|
                        0 <= i < base.len() && 0 <= j < base.len() && base[i].active
                            && base[j].active implies i == j by {
                        if contains_id(s0, rid) {
                            let q = index_of_id(s0, rid);
                            assert(base[i] == if i == q { r } else { s0[i] });
                            assert(base[j] == if j == q { r } else { s0[j] });
                        } else {
                            s0.insert_ensures(pos as int, r);
                            if i > pos as int {
                                assert(base[(i - 1) + 1] == s0[i - 1]);
                            }
                            if j > pos as int {
                                assert(base[(j - 1) + 1] == s0[j - 1]);
                            }
                            assert(base[pos as int] == r);
                            if i < pos as int {
                                assert(base[i] == s0[i]);
                            }
                            if j < pos as int {
                                assert(base[j] == s0[j]);
                            }
                        }
                    }
                }
            }
            proof {
                assert(self@ == spec_upsert(s0, r));
                assert(store_ok(self@));
            }
        }
    }

    /// Makes the named account the single active one, in one pass over
    /// the store. Refused with `NotFound` when the identifier is absent,
    /// leaving the store unchanged. Naming the already-active account is
    /// a safe no-op in effect.
    pub fn set_default_user(&mut self, id: u128) -> (r: Result<(), AuthError>)
        requires
            old(self).wf(),
        ensures
            final(self).wf(),
            contains_id(old(self)@, id) ==> r is Ok && final(self)@ == set_active_id(
                old(self)@,
                id,
            ),
            !contains_id(old(self)@, id) ==> r == Err::<(), AuthError>(AuthError::NotFound(id))
                && final(self)@ == old(self)@,
    {
        match self.find_index(id) {
            None => Err(AuthError::NotFound(id)),
            Some(i) => {
                proof {
                    assert(self@[i as int].id == id);
                    assert(contains_id(self@, id));
                }
                let ghost s0 = self@;
                self.set_all_active_flags(id);
                proof {
                    lemma_set_active_id_ok(s0, id);
                }
                Ok(())
            },
        }
    }

    /// Deletes the named record; a no-op when the identifier is absent.
    /// If the deleted record was the active one and records remain, the
    /// one with the smallest identifier is promoted, so the promotion is
    /// deterministic in the store contents.
    pub fn remove_user(&mut self, id: u128)
        requires
            old(self).wf(),
        ensures
            final(self).wf(),
            final(self)@ == spec_remove(old(self)@, id),
    {
        let ghost s0 = self@;
        match self.find_index(id) {
            None => {
                proof {
                    assert(self@ == spec_remove(s0, id));
                }
            },
            Some(i) => {
                proof {
                    assert(s0[i as int].id == id);
                    assert(contains_id(s0, id));
                    let j = index_of_id(s0, id);
                    assert(0 <= j < s0.len() && s0[j].id == id);
                    if j < i as int {
                        assert(s0[j].id < s0[i as int].id);
                    }
                    if (i as int) < j {
                        assert(s0[i as int].id < s0[j].id);
                    }
                    assert(j == i as int);
                }
                let removed = self.records.remove(i);
                let ghost rem = self@;
                proof {
                    s0.remove_ensures(i as int);
                    assert(rem == s0.remove(i as int));
                    assert(removed == s0[i as int]);
                    assert forall|a: int, b: int| 0 <= a < b < rem.len() implies
                        rem[a].id < rem[b].id by {
                        assert(rem[a] == if a < i as int { s0[a] } else { s0[a + 1] });
                        assert(rem[b] == if b < i as int { s0[b] } else { s0[b + 1] });
                    }
                    assert(ids_sorted(rem));
                }
                if removed.active {
                    proof {
                        assert forall|k: int| 0 <= k < rem.len() implies !rem[k].active by {
                            assert(rem[k] == if k < i as int { s0[k] } else { s0[k + 1] });
                        }
                        assert(!some_active(rem));
                    }
                    if self.records.len() > 0 {
                        let mut c = self.records[0].clone();
                        c.active = true;
                        self.records.set(0, c);
                        proof {
                            assert(self@ == rem.update(0, with_active(rem[0], true)));
                            assert(self@ == promote_if_inactive(rem));
                            assert forall|a: int, b: int| 0 <= a < b < self@.len() implies
                                self@[a].id < self@[b].id by {
                                assert(self@[a] == if a == 0 {
                                    with_active(rem[0], true)
                                } else {
                                    rem[a]
                                });
                                assert(self@[b] == rem[b]);
                            }
                            assert forall|a: int, b: int|
                                0 <= a < self@.len() && 0 <= b < self@.len() && self@[a].active
                                    && self@[b].active implies a == b by {
                                if a > 0 {
                                    assert(self@[a] == rem[a]);
                                }
                                if b > 0 {
                                    assert(self@[b] == rem[b]);
                                }
                            }
                            assert(self@[0].active);
                            assert(some_active(self@));
                        }
                    } else {
                        proof {
                            assert(rem.len() == 0);
                            assert(self@ == promote_if_inactive(rem));
                        }
                    }
                } else {
                    proof {
                        assert(s0.len() > 0);
                        let a = choose|k: int| 0 <= k < s0.len() && s0[k].active;
                        assert(0 <= a < s0.len() && s0[a].active);
                        assert(a != i as int);
                        if a < i as int {
                            assert(rem[a] == s0[a]);
                            assert(some_active(rem));
                        } else {
                            assert(rem[a - 1] == s0[(a - 1) + 1]);
                            assert(some_active(rem));
                        }
                        assert(self@ == promote_if_inactive(rem));
                        assert forall|a2: int, b2: int|
                            0 <= a2 < rem.len() && 0 <= b2 < rem.len() && rem[a2].active
                                && rem[b2].active implies a2 == b2 by {
                            assert(rem[a2] == if a2 < i as int { s0[a2] } else { s0[a2 + 1] });
                            assert(rem[b2] == if b2 < i as int { s0[b2] } else { s0[b2 + 1] });
                        }
                        assert(store_ok(self@));
                    }
                }
            },
        }
    }
}

} // verus!
