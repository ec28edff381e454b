//! The session orchestrator: completes a device-flow link into a persisted
//! identity plus a propagation plan, switches the target tool to a stored
//! identity, and adopts whatever session the target tool currently holds.

use vstd::prelude::*;

use crate::device::{lemma_granted_nonempty, run_poll, spec_poll, PollResult, PollVerdict};
use crate::errors::{ProtocolFault, SwitchError};
use crate::models::{clone_opt_string, AccessTokenResponse, GitHubProvider, GitHubUser};
use crate::propagate::{apply_token_plan, opts_view, plan_view};
use crate::store::{
    has_gid, has_id, idx_of_id, insert_pos, touched, upsert_post, ProviderStore,
};

verus! {

/// Relies on chrono::Utc::now: the current time in epoch seconds; nothing is
/// promised of the outcome.
#[verifier::external_body]
pub fn now_epoch_seconds() -> (r: i64) {
    chrono::Utc::now().timestamp()
}

/// Relies on uuid::Uuid::new_v4 and its hyphenated Display form: a fresh
/// random id, printed as exactly 36 characters.
#[verifier::external_body]
pub fn new_record_id() -> (r: String)
    ensures
        r@.len() == 36,
{
    uuid::Uuid::new_v4().to_string()
}

/// A fresh identity record for a fetched profile: a generated id, the current
/// time as both creation and last-used time, token and profile fields carried
/// over.
pub fn build_identity(user: &GitHubUser, token: String) -> (r: GitHubProvider)
    ensures
        r.id@.len() == 36,
        r.name == user.login,
        r.access_token == token,
        r.email == user.email,
        r.avatar_url == user.avatar_url,
        r.github_id == user.id,
        r.last_used_at == Some(r.created_at),
{
    let id = new_record_id();
    let now = now_epoch_seconds();
    GitHubProvider {
        id,
        name: user.login.clone(),
        access_token: token,
        email: clone_opt_string(&user.email),
        avatar_url: clone_opt_string(&user.avatar_url),
        github_id: user.id,
        created_at: now,
        last_used_at: Some(now),
    }
}

/// What the profile endpoint's reply yields: the user on a 2xx status with a
/// readable body, a protocol fault carrying the status or the broken body
/// otherwise.
pub fn profile_outcome(status: u16, body: Option<GitHubUser>) -> (r: Result<
    GitHubUser,
    SwitchError,
>)
    ensures
        !(200 <= status < 300) ==> (r matches Err(
            SwitchError::Protocol(ProtocolFault::HttpStatus(s)),
        ) && s == status),
        200 <= status < 300 && body is None ==> r == Err::<GitHubUser, SwitchError>(
            SwitchError::Protocol(ProtocolFault::MalformedBody),
        ),
        200 <= status < 300 && body is Some ==> (r matches Ok(u) && body == Some(u)),
{
    if status < 200 || status >= 300 {
        return Err(SwitchError::Protocol(ProtocolFault::HttpStatus(status)));
    }
    match body {
        Some(u) => Ok(u),
        None => Err(SwitchError::Protocol(ProtocolFault::MalformedBody)),
    }
}

/// Completes a link: reads the poll outcome over the recorded token-endpoint
/// responses, takes the fetched profile, files a fresh identity, and plans
/// the propagation write. Nothing is persisted unless every earlier step
/// succeeded; a run that exhausts its responses without an outcome counts as
/// expired.
pub fn complete_link(
    store: &mut ProviderStore,
    responses: &Vec<AccessTokenResponse>,
    interval: u64,
    expires_in: u64,
    profile: &Result<GitHubUser, ProtocolFault>,
    files: &Vec<Option<String>>,
) -> (r: Result<(GitHubProvider, Vec<Option<String>>), SwitchError>)
    requires
        old(store).wf(),
        1 <= interval <= u64::MAX - 5,
    ensures
        final(store).wf(),
        r is Err ==> final(store)@ == old(store)@,
        (match spec_poll(responses@, 0, (expires_in / interval) as nat) {
            PollVerdict::Granted(t) => match profile {
                Ok(user) => if has_gid(old(store)@, user.id) {
                    r matches Err(SwitchError::Conflict(g)) && g == user.id
                } else {
                    ||| {
                        &&& r matches Ok((p, plan))
                        &&& p.github_id == user.id
                        &&& p.name == user.login
                        &&& p.access_token@ == t
                        &&& p.email == user.email
                        &&& p.avatar_url == user.avatar_url
                        &&& p.last_used_at == Some(p.created_at)
                        &&& final(store)@ == old(store)@.insert(
                            insert_pos(old(store)@, p.created_at),
                            p,
                        )
                        &&& opts_view(plan@) == plan_view(opts_view(files@), t)
                    }
                    ||| {
                        &&& r matches Err(SwitchError::Storage(_))
                        &&& exists|i: int|
                            0 <= i < old(store)@.len() && #[trigger] old(store)@[i].id@.len()
                                == 36
                    }
                },
                Err(f) => r matches Err(SwitchError::Protocol(f2)) && f2 == f,
            },
            PollVerdict::Expired => r matches Err(SwitchError::Expired),
            PollVerdict::Denied => r matches Err(SwitchError::AccessDenied),
            PollVerdict::Faulted(c) => r matches Err(
                SwitchError::Protocol(ProtocolFault::ErrorCode(code)),
            ) && code@ == c,
            PollVerdict::NeedMore => r matches Err(SwitchError::Expired),
        }),
{
    proof {
        lemma_granted_nonempty(responses@, 0, (expires_in / interval) as nat);
    }
    match run_poll(responses, interval, expires_in) {
        PollResult::Granted(tok) => match profile {
            Ok(user) => {
                let rec = build_identity(user, tok);
                let out = rec.clone();
                match store.insert(rec) {
                    Ok(()) => {
                        let plan = apply_token_plan(files, out.access_token.as_str());
                        Ok((out, plan))
                    },
                    Err(e) => {
                        proof {
                            if !has_gid(old(store)@, out.github_id) {
                                // the insert refused only because the drawn
                                // id is already taken by some 36-char id
                                assert(has_id(old(store)@, out.id@));
                                let w = idx_of_id(old(store)@, out.id@);
                                assert(0 <= w < old(store)@.len() && old(store)@[w].id@
                                    == out.id@);
                                assert(old(store)@[w].id@.len() == 36);
                            }
                        }
                        Err(e)
                    },
                }
            },
            Err(f) => Err(SwitchError::Protocol(f.duplicate())),
        },
        PollResult::Failed(e) => Err(e),
        PollResult::NeedMore => Err(SwitchError::Expired),
    }
}

/// Switches the target tool to the stored identity with the given id: plans
/// the propagation write from its token, then marks the identity used.
/// Fails with `NotFound`, changing nothing, when the id is unknown.
#[verifier::loop_isolation(false)]
pub fn switch_provider(
    store: &mut ProviderStore,
    id: &String,
    files: &Vec<Option<String>>,
    now: i64,
) -> (r: Result<Vec<Option<String>>, SwitchError>)
    requires
        old(store).wf(),
    ensures
        final(store).wf(),
        !has_id(old(store)@, id@) ==> {
            &&& r matches Err(SwitchError::NotFound(m)) && m@ == id@
            &&& final(store)@ == old(store)@
        },
        has_id(old(store)@, id@) ==> {
            &&& r matches Ok(plan) && opts_view(plan@) == plan_view(
                opts_view(files@),
                old(store)@[idx_of_id(old(store)@, id@)].access_token@,
            )
            &&& final(store)@ == old(store)@.update(
                idx_of_id(old(store)@, id@),
                touched(old(store)@[idx_of_id(old(store)@, id@)], now),
            )
        },
{
    let ghost pre = store@;
    let token: String;
    {
        let recs = store.list_providers();
        let n = recs.len();
        let mut i: usize = 0;
        let mut found: Option<String> = None;
        while i < n
            invariant
                i <= n,
                n == pre.len(),
                recs@ == pre,
                found is None,
                forall|j: int| 0 <= j < i ==> pre[j].id@ != id@,
            decreases n - i,
        {
            if recs[i].id == *id {
                proof {
                    assert(has_id(pre, id@));
                    let w = idx_of_id(pre, id@);
                    assert(0 <= w < pre.len() && pre[w].id@ == id@);
                    assert(w == i as int);
                }
                found = Some(recs[i].access_token.clone());
                break;
            }
            i += 1;
        }
        match found {
            Some(t) => {
                token = t;
            },
            None => {
                return Err(SwitchError::NotFound(id.clone()));
            },
        }
    }
    let plan = apply_token_plan(files, token.as_str());
    match store.touch_last_used(id, now) {
        Ok(_) => Ok(plan),
        Err(e) => Err(e),
    }
}

/// Adopts the target tool's active session: the fetched profile and its token
/// refresh the record with the same remote numeric account id, or are filed
/// as a new identity.
pub fn adopt_active(store: &mut ProviderStore, user: &GitHubUser, token: String) -> (r: Result<
    (),
    SwitchError,
>)
    requires
        old(store).wf(),
        token@.len() > 0,
    ensures
        final(store).wf(),
        r is Ok ==> exists|rec: GitHubProvider|
            {
                &&& rec.github_id == user.id
                &&& rec.name == user.login
                &&& rec.access_token == token
                &&& rec.email == user.email
                &&& rec.avatar_url == user.avatar_url
                &&& rec.last_used_at == Some(rec.created_at)
                &&& #[trigger] upsert_post(old(store)@, final(store)@, rec)
            },
        has_gid(old(store)@, user.id) ==> r is Ok,
        r is Err ==> {
            &&& r matches Err(SwitchError::Storage(_))
            &&& final(store)@ == old(store)@
            &&& exists|i: int|
                0 <= i < old(store)@.len() && #[trigger] old(store)@[i].id@.len() == 36
        },
{
    let rec = build_identity(user, token);
    let ghost witness = rec;
    let r = store.upsert_by_remote_id(rec);
    proof {
        if r is Ok {
            assert(upsert_post(old(store)@, store@, witness));
        } else {
            // the only refusal: a fresh account whose drawn id is already
            // taken by some 36-char id
            assert(!has_gid(old(store)@, witness.github_id));
            assert(has_id(old(store)@, witness.id@));
            let w = idx_of_id(old(store)@, witness.id@);
            assert(0 <= w < old(store)@.len() && old(store)@[w].id@ == witness.id@);
            assert(old(store)@[w].id@.len() == 36);
        }
    }
    r
}


} // verus!
