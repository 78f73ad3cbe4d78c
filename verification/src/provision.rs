//! Identity provisioner: plans test accounts from a naming scheme, builds the
//! admin-authorized creation requests, and collects the identities whose
//! creation the service acknowledged.
//!
//! A single creation failure only excludes that identity from the pool; the
//! batch as a whole fails only when no identity at all was created.

use crate::auth::{RequestPlan, Session, User, UserView};
use crate::wire::{append_decimal, authorized_headers_spec, decimal_of, encode_login_body,
    login_body_of};
use vstd::prelude::*;
use vstd::string::StringExecFns;

verus! {

/// Why provisioning failed as a whole.
#[derive(Clone, Copy, PartialEq, Eq, Structural, Debug)]
pub enum ProvisionError {
    /// Not one requested identity was created.
    NoIdentitiesCreated,
}

/// A test account created for the load phase: its credentials and, once it
/// has logged in, its session.
pub struct TestIdentity {
    pub credentials: User,
    pub session: Option<Session>,
}

/// How test account credentials are derived from an index: the identifier is
/// `prefix` followed by the decimal index, and the password is the identifier
/// followed by `password_suffix`.
pub struct NamingScheme {
    pub prefix: String,
    pub password_suffix: String,
}

/// The identifier the scheme gives to identity `index`.
pub open spec fn scheme_user_id(prefix: Seq<char>, index: int) -> Seq<char> {
    prefix + decimal_of(index)
}

/// Builds the credentials of identity `index` under `scheme`.
pub fn scheme_credentials(scheme: &NamingScheme, index: u64) -> (u: User)
    ensures
        u.user_id@ == scheme_user_id(scheme.prefix@, index as int),
        u.password@ == scheme_user_id(scheme.prefix@, index as int) + scheme.password_suffix@,
{
    let mut id = scheme.prefix.clone();
    append_decimal(&mut id, index);
    let mut pw = id.clone();
    pw.append(scheme.password_suffix.as_str());
    User { user_id: id, password: pw }
}

/// Plans the credentials of `count` identities, indexed from zero.
pub fn plan_identities(scheme: &NamingScheme, count: u64) -> (v: Vec<User>)
    ensures
        v@.len() == count,
        forall|k: int|
            0 <= k < count ==> (#[trigger] v@[k].user_id@) == scheme_user_id(scheme.prefix@, k)
                && v@[k].password@ == scheme_user_id(scheme.prefix@, k) + scheme.password_suffix@,
{
    let mut v: Vec<User> = Vec::new();
    let mut i: u64 = 0;
    while i < count
        invariant
            i <= count,
            v@.len() == i,
            forall|k: int|
                0 <= k < i ==> (#[trigger] v@[k].user_id@) == scheme_user_id(scheme.prefix@, k)
                    && v@[k].password@ == scheme_user_id(scheme.prefix@, k)
                    + scheme.password_suffix@,
        decreases count - i,
    {
        let u = scheme_credentials(scheme, i);
        v.push(u);
        proof {
            assert(v@[i as int] == u);
        }
        i = i + 1;
    }
    v
}

/// Builds the admin-authorized creation request for `user`: POST `/users`
/// carrying the admin session's bearer token and the new credentials as JSON.
pub fn create_user_request(admin: &Session, user: &User) -> (r: RequestPlan)
    ensures
        r.path@ == "/users"@,
        authorized_headers_spec(r.headers@, admin.bearer_token@),
        r.body@ == login_body_of(user.user_id@, user.password@),
{
    RequestPlan {
        path: "/users".to_owned(),
        headers: crate::auth::session_headers(admin),
        body: encode_login_body(user.user_id.as_str(), user.password.as_str()),
    }
}

/// How many creation attempts succeeded.
pub open spec fn count_created(created: Seq<bool>) -> int
    decreases created.len(),
{
    if created.len() == 0 {
        0
    } else {
        count_created(created.drop_last()) + if created.last() {
            1int
        } else {
            0int
        }
    }
}

/// The requested credentials whose creation succeeded, in request order.
pub open spec fn selected_users(requested: Seq<User>, created: Seq<bool>) -> Seq<UserView>
    decreases requested.len(),
{
    if requested.len() == 0 || created.len() == 0 {
        Seq::empty()
    } else {
        selected_users(requested.drop_last(), created.drop_last()) + if created.last() {
            seq![requested.last()@]
        } else {
            Seq::empty()
        }
    }
}

/// Law: with one creation answer per requested identity, exactly the
/// acknowledged ones are selected, so the pool has one member per success.
pub proof fn lemma_selected_count(requested: Seq<User>, created: Seq<bool>)
    requires
        requested.len() == created.len(),
    ensures
        selected_users(requested, created).len() == count_created(created),
        0 <= count_created(created) <= created.len(),
    decreases requested.len(),
{
    if requested.len() > 0 {
        lemma_selected_count(requested.drop_last(), created.drop_last());
    }
}

/// Collects the identity pool out of per-identity creation results.
///
/// `created[k]` says whether the creation request for `requested[k]`
/// succeeded. The pool holds exactly the acknowledged identities, none of
/// them logged in yet; if none was acknowledged, provisioning fails and the
/// run is aborted before the load phase.
pub fn collect_identities(requested: &Vec<User>, created: &Vec<bool>) -> (r: Result<
    Vec<TestIdentity>,
    ProvisionError,
>)
    requires
        requested@.len() == created@.len(),
    ensures
        match r {
            Ok(ids) => {
                &&& count_created(created@) > 0
                &&& ids@.len() == count_created(created@)
                &&& ids@.map_values(|ti: TestIdentity| ti.credentials@) == selected_users(
                    requested@,
                    created@,
                )
                &&& forall|k: int| 0 <= k < ids@.len() ==> (#[trigger] ids@[k].session) is None
            },
            Err(e) => e == ProvisionError::NoIdentitiesCreated && count_created(created@) == 0,
        },
{
    let n = requested.len();
    let mut ids: Vec<TestIdentity> = Vec::new();
    let mut i: usize = 0;
    while i < n
        invariant
            i <= n,
            n == requested@.len() == created@.len(),
            ids@.map_values(|ti: TestIdentity| ti.credentials@) == selected_users(
                requested@.take(i as int),
                created@.take(i as int),
            ),
            ids@.len() == count_created(created@.take(i as int)),
            forall|k: int| 0 <= k < ids@.len() ==> (#[trigger] ids@[k].session) is None,
        decreases n - i,
    {
        let ghost prev = ids@;
        if created[i] {
            ids.push(TestIdentity { credentials: requested[i].clone(), session: None });
        }
        proof {
            let rt = requested@.take(i as int + 1);
            let ct = created@.take(i as int + 1);
            assert(rt.drop_last() =~= requested@.take(i as int));
            assert(ct.drop_last() =~= created@.take(i as int));
            assert(rt.last() == requested@[i as int] && ct.last() == created@[i as int]);
            if created@[i as int] {
                assert(ids@ =~= prev.push(ids@.last()));
                assert(ids@.map_values(|ti: TestIdentity| ti.credentials@) =~= prev.map_values(
                    |ti: TestIdentity| ti.credentials@,
                ).push(ids@.last().credentials@));
                assert(selected_users(rt, ct) =~= selected_users(
                    rt.drop_last(),
                    ct.drop_last(),
                ).push(rt.last()@));
                assert(ids@.last().credentials@ == requested@[i as int]@);
            } else {
                assert(selected_users(rt, ct) =~= selected_users(rt.drop_last(), ct.drop_last()));
            }
        }
        i = i + 1;
    }
    proof {
        assert(requested@.take(n as int) =~= requested@);
        assert(created@.take(n as int) =~= created@);
        lemma_selected_count(requested@, created@);
    }
    if ids.len() == 0 {
        Err(ProvisionError::NoIdentitiesCreated)
    } else {
        Ok(ids)
    }
}

} // verus!
