//! The library-wide guarantees that span more than one operation,
//! stated and proved over the store's and the flow engine's models.
//! The single-active invariant itself is carried by each operation's
//! own contract: every mutating operation of `CredentialStore` requires
//! a well-formed store and ensures one.

use vstd::prelude::*;

use crate::credentials::Credentials;
use crate::errors::AuthError;
use crate::flow::finish_login_post;
use crate::flow::ExchangeOutcome;
use crate::flow::FlowState;
use crate::flow::LoginFlow;
use crate::ids::offline_token_prefix;
use crate::ids::uuid_hyphenated;
use crate::store::at_most_one_active;
use crate::store::contains_id;
use crate::store::index_of_id;
use crate::store::promote_if_inactive;
use crate::store::set_active_id;
use crate::store::some_active;
use crate::store::spec_remove;
use crate::store::store_ok;
use crate::credentials::with_active;

verus! {

/// Identifier uniqueness: in a well-formed store no two distinct
/// records carry the same identifier.
pub proof fn lemma_ids_unique(s: Seq<Credentials>)
    requires
        store_ok(s),
    ensures
        forall|i: int, j: int|
            0 <= i < s.len() && 0 <= j < s.len() && i != j ==> s[i].id != s[j].id,
{
    assert forall|i: int, j: int|
        0 <= i < s.len() && 0 <= j < s.len() && i != j implies s[i].id != s[j].id by {
        if i < j {
            assert(s[i].id < s[j].id);
        } else {
            assert(s[j].id < s[i].id);
        }
    }
}

/// Making the already-active account the default changes nothing.
pub proof fn lemma_set_default_already_active_noop(s: Seq<Credentials>, id: u128)
    requires
        store_ok(s),
        contains_id(s, id),
        s[index_of_id(s, id)].active,
    ensures
        set_active_id(s, id) == s,
{
    let t = set_active_id(s, id);
    let j = index_of_id(s, id);
    assert(0 <= j < s.len() && s[j].id == id);
    assert forall|k: int| 0 <= k < s.len() implies t[k] == s[k] by {
        assert(t[k] == with_active(s[k], s[k].id == id));
        if s[k].id == id {
            if k < j {
                assert(s[k].id < s[j].id);
            }
            if j < k {
                assert(s[j].id < s[k].id);
            }
            assert(k == j);
            assert(s[k].active);
        } else {
            if s[k].active {
                assert(s[j].active);
                assert(k == j);
            }
            assert(!s[k].active);
        }
    }
    assert(t =~= s);
}

/// Setting the default account is idempotent: a second call with the
/// same identifier leaves the store exactly as the first left it.
pub proof fn lemma_set_default_idempotent(s: Seq<Credentials>, id: u128)
    ensures
        set_active_id(set_active_id(s, id), id) == set_active_id(s, id),
{
    let t = set_active_id(s, id);
    let u = set_active_id(t, id);
    assert forall|k: int| 0 <= k < s.len() implies u[k] == t[k] by {
        assert(t[k] == with_active(s[k], s[k].id == id));
        assert(u[k] == with_active(t[k], t[k].id == id));
    }
    assert(u =~= t);
}

/// Removal promotion is deterministic: removing the active account from
/// a store of more than one record always promotes the remaining record
/// with the smallest identifier.
pub proof fn lemma_remove_promotes_smallest(s: Seq<Credentials>, id: u128)
    requires
        store_ok(s),
        contains_id(s, id),
        s[index_of_id(s, id)].active,
        s.len() > 1,
    ensures
        spec_remove(s, id).len() == s.len() - 1,
        spec_remove(s, id)[0].active,
        forall|k: int|
            0 <= k < spec_remove(s, id).len() ==> spec_remove(s, id)[0].id <= #[trigger] spec_remove(
                s,
                id,
            )[k].id,
{
    let j = index_of_id(s, id);
    let rem = s.remove(j);
    s.remove_ensures(j);
    assert forall|k: int| 0 <= k < rem.len() implies !rem[k].active by {
        assert(rem[k] == if k < j {
            s[k]
        } else {
            s[k + 1]
        });
        if rem[k].active {
            assert(at_most_one_active(s));
        }
    }
    assert(!some_active(rem));
    let t = promote_if_inactive(rem);
    assert(t == rem.update(0, with_active(rem[0], true)));
    assert(t[0].active);
    assert forall|k: int| 0 <= k < t.len() implies t[0].id <= #[trigger] t[k].id by {
        assert(t[0].id == rem[0].id);
        if k > 0 {
            assert(t[k] == rem[k]);
            assert(rem[0].id < rem[k].id);
        }
    }
    assert(spec_remove(s, id) == t);
}

/// Offline isolation, on the store's side: every access token an
/// offline account is created with starts with the offline marker
/// prefix, which no provider-issued token is ever given by this
/// library.
pub proof fn lemma_offline_token_marked(id: u128)
    ensures
        offline_token_prefix().is_prefix_of(offline_token_prefix() + uuid_hyphenated(id)),
{
    let p = offline_token_prefix();
    let w = p + uuid_hyphenated(id);
    assert(p =~= w.subrange(0, p.len() as int));
}

/// A login flow is consumed at most once: once a finish call has
/// succeeded, any further finish of the same flow is refused with
/// `FlowConsumed` and changes neither the flow nor the store.
pub proof fn lemma_flow_single_use(
    f0: LoginFlow,
    f1: LoginFlow,
    f2: LoginFlow,
    s0: Seq<Credentials>,
    s1: Seq<Credentials>,
    s2: Seq<Credentials>,
    o1: ExchangeOutcome,
    o2: ExchangeOutcome,
    n1: i64,
    n2: i64,
    r1: Result<Credentials, AuthError>,
    r2: Result<Credentials, AuthError>,
)
    requires
        finish_login_post(f0, f1, s0, s1, o1, n1, r1),
        finish_login_post(f1, f2, s1, s2, o2, n2, r2),
        r1 is Ok,
    ensures
        r2 == Err::<Credentials, AuthError>(AuthError::FlowConsumed),
        f2 == f1,
        s2 == s1,
{
    assert(f0.state == FlowState::Pending);
    assert(f1.state == FlowState::Authorized);
}

} // verus!
