//! The credential store: the ordered record set of known identities, with
//! uniqueness of the remote numeric account id, uniqueness of record ids,
//! non-empty tokens, and newest-first ordering by creation time.

use vstd::prelude::*;

use crate::errors::SwitchError;
use crate::models::GitHubProvider;

verus! {

/// A record fit for persistence: its token is never empty.
pub open spec fn rec_wf(r: GitHubProvider) -> bool {
    r.access_token@.len() > 0
}

pub open spec fn sorted_desc(s: Seq<GitHubProvider>) -> bool {
    forall|i: int, j: int| 0 <= i < j < s.len() ==> s[i].created_at >= s[j].created_at
}

pub open spec fn gids_unique(s: Seq<GitHubProvider>) -> bool {
    forall|i: int, j: int| 0 <= i < j < s.len() ==> s[i].github_id != s[j].github_id
}

pub open spec fn ids_unique(s: Seq<GitHubProvider>) -> bool {
    forall|i: int, j: int| 0 <= i < j < s.len() ==> s[i].id@ != s[j].id@
}

pub open spec fn store_wf(s: Seq<GitHubProvider>) -> bool {
    &&& sorted_desc(s)
    &&& gids_unique(s)
    &&& ids_unique(s)
    &&& forall|i: int| 0 <= i < s.len() ==> rec_wf(s[i])
}

pub open spec fn has_gid(s: Seq<GitHubProvider>, gid: i64) -> bool {
    exists|i: int| 0 <= i < s.len() && s[i].github_id == gid
}

pub open spec fn idx_of_gid(s: Seq<GitHubProvider>, gid: i64) -> int {
    choose|i: int| 0 <= i < s.len() && s[i].github_id == gid
}

pub open spec fn has_id(s: Seq<GitHubProvider>, idv: Seq<char>) -> bool {
    exists|i: int| 0 <= i < s.len() && s[i].id@ == idv
}

pub open spec fn idx_of_id(s: Seq<GitHubProvider>, idv: Seq<char>) -> int {
    choose|i: int| 0 <= i < s.len() && s[i].id@ == idv
}

/// Where a record of the given creation time is inserted to keep the list
/// newest first: before the first record that is not newer.
pub open spec fn insert_pos(s: Seq<GitHubProvider>, c: i64) -> int
    decreases s.len(),
{
    if s.len() == 0 {
        0
    } else if s[0].created_at <= c {
        0
    } else {
        1 + insert_pos(s.drop_first(), c)
    }
}

pub proof fn lemma_insert_pos(s: Seq<GitHubProvider>, c: i64)
    ensures
        0 <= insert_pos(s, c) <= s.len(),
        forall|i: int| 0 <= i < insert_pos(s, c) ==> s[i].created_at > c,
        insert_pos(s, c) < s.len() ==> s[insert_pos(s, c)].created_at <= c,
    decreases s.len(),
{
    if s.len() == 0 {
    } else if s[0].created_at <= c {
    } else {
        lemma_insert_pos(s.drop_first(), c);
        assert forall|i: int| 0 <= i < insert_pos(s, c) implies s[i].created_at > c by {
            if i > 0 {
                assert(s.drop_first()[i - 1] == s[i]);
            }
        }
        assert(insert_pos(s, c) < s.len() ==> s.drop_first()[insert_pos(s.drop_first(), c)]
            == s[insert_pos(s, c)]);
    }
}

/// The record an existing row becomes when reconciliation refreshes it: id,
/// remote account id and creation time are kept; name, token, profile fields
/// and the last-used time are taken from the incoming record.
pub open spec fn refreshed(orig: GitHubProvider, rec: GitHubProvider) -> GitHubProvider {
    GitHubProvider {
        id: orig.id,
        name: rec.name,
        access_token: rec.access_token,
        email: rec.email,
        avatar_url: rec.avatar_url,
        github_id: orig.github_id,
        created_at: orig.created_at,
        last_used_at: rec.last_used_at,
    }
}

/// What upsert-by-remote-id leaves behind: an in-place refresh when the
/// remote account id is known, a plain insert otherwise.
pub open spec fn upsert_post(
    pre: Seq<GitHubProvider>,
    post: Seq<GitHubProvider>,
    rec: GitHubProvider,
) -> bool {
    if has_gid(pre, rec.github_id) {
        post == pre.update(idx_of_gid(pre, rec.github_id), refreshed(pre[idx_of_gid(pre, rec.github_id)], rec))
    } else {
        post == pre.insert(insert_pos(pre, rec.created_at), rec)
    }
}

/// A record with its last-used time set.
pub open spec fn touched(r: GitHubProvider, now: i64) -> GitHubProvider {
    GitHubProvider {
        id: r.id,
        name: r.name,
        access_token: r.access_token,
        email: r.email,
        avatar_url: r.avatar_url,
        github_id: r.github_id,
        created_at: r.created_at,
        last_used_at: Some(now),
    }
}

/// The record set of known identities.
pub struct ProviderStore {
    records: Vec<GitHubProvider>,
}

impl View for ProviderStore {
    type V = Seq<GitHubProvider>;

    closed spec fn view(&self) -> Seq<GitHubProvider> {
        self.records@
    }
}

impl ProviderStore {
    pub open spec fn wf(&self) -> bool {
        store_wf(self@)
    }

    /// An empty store.
    pub fn new() -> (r: ProviderStore)
        ensures
            r@ == Seq::<GitHubProvider>::empty(),
            r.wf(),
    {
        ProviderStore { records: Vec::new() }
    }

    /// Every known identity, newest first by creation time.
    pub fn list_providers(&self) -> (r: &Vec<GitHubProvider>)
        ensures
            r@ == self@,
    {
        &self.records
    }

    /// Adds a new identity. Fails with `Conflict` when the remote numeric
    /// account id is already present, and with `Storage` when the record id
    /// itself is already taken.
    #[verifier::loop_isolation(false)]
    pub fn insert(&mut self, rec: GitHubProvider) -> (r: Result<(), SwitchError>)
        requires
            old(self).wf(),
            rec_wf(rec),
        ensures
            final(self).wf(),
            has_gid(old(self)@, rec.github_id) ==> {
                &&& r matches Err(SwitchError::Conflict(g)) && g == rec.github_id
                &&& final(self)@ == old(self)@
            },
            !has_gid(old(self)@, rec.github_id) && has_id(old(self)@, rec.id@) ==> {
                &&& r matches Err(SwitchError::Storage(_))
                &&& final(self)@ == old(self)@
            },
            !has_gid(old(self)@, rec.github_id) && !has_id(old(self)@, rec.id@) ==> {
                &&& r is Ok
                &&& final(self)@ == old(self)@.insert(insert_pos(old(self)@, rec.created_at), rec)
            },
    {
        let n = self.records.len();
        let mut i: usize = 0;
        while i < n
            invariant
                i <= n,
                forall|j: int| 0 <= j < i ==> self@[j].github_id != rec.github_id,
            decreases n - i,
        {
            if self.records[i].github_id == rec.github_id {
                return Err(SwitchError::Conflict(rec.github_id));
            }
            i += 1;
        }
        let mut i: usize = 0;
        while i < n
            invariant
                i <= n,
                forall|j: int| 0 <= j < i ==> self@[j].id@ != rec.id@,
            decreases n - i,
        {
            if self.records[i].id == rec.id {
                return Err(SwitchError::Storage("record id already present".to_owned()));
            }
            i += 1;
        }
        let mut k: usize = 0;
        proof {
            assert(self@.skip(0) =~= self@);
        }
        while k < n && rec.created_at < self.records[k].created_at
            invariant
                k <= n,
                insert_pos(self@.skip(k as int), rec.created_at) + k
                    == insert_pos(self@, rec.created_at),
            decreases n - k,
        {
            proof {
                assert(self@.skip(k as int)[0] == self@[k as int]);
                assert(self@.skip(k as int).drop_first() =~= self@.skip(k as int + 1));
                lemma_insert_pos(self@.skip(k as int + 1), rec.created_at);
            }
            k += 1;
        }
        proof {
            if k < n {
                assert(self@.skip(k as int)[0] == self@[k as int]);
            } else {
                assert(self@.skip(k as int) =~= Seq::<GitHubProvider>::empty());
            }
            assert(k as int == insert_pos(self@, rec.created_at));
            lemma_insert_pos(self@, rec.created_at);
        }
        let ghost pre = self@;
        self.records.insert(k, rec);
        proof {
            let post = self@;
            assert forall|i2: int, j2: int| 0 <= i2 < j2 < post.len() implies post[i2].created_at
                >= post[j2].created_at by {
                assert(sorted_desc(pre));
            }
            assert forall|i2: int, j2: int| 0 <= i2 < j2 < post.len() implies post[i2].github_id
                != post[j2].github_id by {}
            assert forall|i2: int, j2: int| 0 <= i2 < j2 < post.len() implies post[i2].id@
                != post[j2].id@ by {}
        }
        Ok(())
    }

    /// Refreshes the record with the same remote numeric account id in place,
    /// or inserts the record as a new identity when none is known.
    #[verifier::loop_isolation(false)]
    pub fn upsert_by_remote_id(&mut self, rec: GitHubProvider) -> (r: Result<(), SwitchError>)
        requires
            old(self).wf(),
            rec_wf(rec),
        ensures
            final(self).wf(),
            has_gid(old(self)@, rec.github_id) ==> r is Ok && upsert_post(old(self)@, final(self)@, rec),
            !has_gid(old(self)@, rec.github_id) && has_id(old(self)@, rec.id@) ==> {
                &&& r matches Err(SwitchError::Storage(_))
                &&& final(self)@ == old(self)@
            },
            !has_gid(old(self)@, rec.github_id) && !has_id(old(self)@, rec.id@) ==> r is Ok
                && upsert_post(old(self)@, final(self)@, rec),
    {
        let ghost pre = self@;
        let n = self.records.len();
        let mut i: usize = 0;
        while i < n
            invariant
                i <= n,
                self@ == pre,
                n == pre.len(),
                forall|j: int| 0 <= j < i ==> self@[j].github_id != rec.github_id,
            decreases n - i,
        {
            if self.records[i].github_id == rec.github_id {
                proof {
                    assert(has_gid(pre, rec.github_id));
                    let w = idx_of_gid(pre, rec.github_id);
                    assert(0 <= w < pre.len() && pre[w].github_id == rec.github_id);
                    assert(gids_unique(pre));
                    assert(w == i as int);
                }
                let orig = self.records.remove(i);
                let next = GitHubProvider {
                    id: orig.id,
                    name: rec.name,
                    access_token: rec.access_token,
                    email: rec.email,
                    avatar_url: rec.avatar_url,
                    github_id: orig.github_id,
                    created_at: orig.created_at,
                    last_used_at: rec.last_used_at,
                };
                self.records.insert(i, next);
                proof {
                    assert(self@ =~= pre.update(i as int, refreshed(pre[i as int], rec)));
                    let post = self@;
                    assert forall|i2: int, j2: int| 0 <= i2 < j2 < post.len() implies
                        post[i2].created_at >= post[j2].created_at by {
                        assert(sorted_desc(pre));
                    }
                    assert forall|i2: int, j2: int| 0 <= i2 < j2 < post.len() implies
                        post[i2].github_id != post[j2].github_id by {}
                    assert forall|i2: int, j2: int| 0 <= i2 < j2 < post.len() implies post[i2].id@
                        != post[j2].id@ by {}
                }
                return Ok(());
            }
            i += 1;
        }
        self.insert(rec)
    }

    /// Removes the identity with the given id; absent ids are a no-op.
    #[verifier::loop_isolation(false)]
    pub fn delete_provider(&mut self, id: &String)
        requires
            old(self).wf(),
        ensures
            final(self).wf(),
            has_id(old(self)@, id@) ==> final(self)@ == old(self)@.remove(idx_of_id(old(self)@, id@)),
            !has_id(old(self)@, id@) ==> final(self)@ == old(self)@,
    {
        let ghost pre = self@;
        let n = self.records.len();
        let mut i: usize = 0;
        while i < n
            invariant
                i <= n,
                self@ == pre,
                n == pre.len(),
                forall|j: int| 0 <= j < i ==> self@[j].id@ != id@,
            decreases n - i,
        {
            if self.records[i].id == *id {
                proof {
                    assert(has_id(pre, id@));
                    let w = idx_of_id(pre, id@);
                    assert(0 <= w < pre.len() && pre[w].id@ == id@);
                    assert(ids_unique(pre));
                    assert(w == i as int);
                }
                self.records.remove(i);
                proof {
                    let post = self@;
                    assert forall|i2: int, j2: int| 0 <= i2 < j2 < post.len() implies
                        post[i2].created_at >= post[j2].created_at by {
                        assert(sorted_desc(pre));
                    }
                    assert forall|i2: int, j2: int| 0 <= i2 < j2 < post.len() implies
                        post[i2].github_id != post[j2].github_id by {}
                    assert forall|i2: int, j2: int| 0 <= i2 < j2 < post.len() implies post[i2].id@
                        != post[j2].id@ by {}
                }
                return;
            }
            i += 1;
        }
    }

    /// Sets the last-used time of the identity with the given id and returns
    /// the updated record; fails with `NotFound` when the id is absent.
    #[verifier::loop_isolation(false)]
    pub fn touch_last_used(&mut self, id: &String, now: i64) -> (r: Result<
        GitHubProvider,
        SwitchError,
    >)
        requires
            old(self).wf(),
        ensures
            final(self).wf(),
            has_id(old(self)@, id@) ==> {
                &&& r matches Ok(rec) && rec == touched(
                    old(self)@[idx_of_id(old(self)@, id@)],
                    now,
                )
                &&& final(self)@ == old(self)@.update(
                    idx_of_id(old(self)@, id@),
                    touched(old(self)@[idx_of_id(old(self)@, id@)], now),
                )
            },
            !has_id(old(self)@, id@) ==> {
                &&& r matches Err(SwitchError::NotFound(missing)) && missing@ == id@
                &&& final(self)@ == old(self)@
            },
    {
        let ghost pre = self@;
        let n = self.records.len();
        let mut i: usize = 0;
        while i < n
            invariant
                i <= n,
                self@ == pre,
                n == pre.len(),
                forall|j: int| 0 <= j < i ==> self@[j].id@ != id@,
            decreases n - i,
        {
            if self.records[i].id == *id {
                proof {
                    assert(has_id(pre, id@));
                    let w = idx_of_id(pre, id@);
                    assert(0 <= w < pre.len() && pre[w].id@ == id@);
                    assert(ids_unique(pre));
                    assert(w == i as int);
                }
                let orig = self.records.remove(i);
                let next = GitHubProvider {
                    id: orig.id,
                    name: orig.name,
                    access_token: orig.access_token,
                    email: orig.email,
                    avatar_url: orig.avatar_url,
                    github_id: orig.github_id,
                    created_at: orig.created_at,
                    last_used_at: Some(now),
                };
                let out = next.clone();
                self.records.insert(i, next);
                proof {
                    assert(self@ =~= pre.update(i as int, touched(pre[i as int], now)));
                    let post = self@;
                    assert forall|i2: int, j2: int| 0 <= i2 < j2 < post.len() implies
                        post[i2].created_at >= post[j2].created_at by {
                        assert(sorted_desc(pre));
                    }
                    assert forall|i2: int, j2: int| 0 <= i2 < j2 < post.len() implies
                        post[i2].github_id != post[j2].github_id by {}
                    assert forall|i2: int, j2: int| 0 <= i2 < j2 < post.len() implies post[i2].id@
                        != post[j2].id@ by {}
                }
                return Ok(out);
            }
            i += 1;
        }
        Err(SwitchError::NotFound(id.clone()))
    }
}

/// The upsert law: two successful upserts that carry the same remote numeric
/// account id leave exactly one record with that id, and its token is the one
/// the second upsert carried.
pub proof fn lemma_upsert_same_remote_twice(
    s0: Seq<GitHubProvider>,
    s1: Seq<GitHubProvider>,
    s2: Seq<GitHubProvider>,
    r1: GitHubProvider,
    r2: GitHubProvider,
)
    requires
        store_wf(s0),
        store_wf(s1),
        upsert_post(s0, s1, r1),
        upsert_post(s1, s2, r2),
        r1.github_id == r2.github_id,
    ensures
        has_gid(s2, r2.github_id),
        forall|i: int|
            0 <= i < s2.len() && s2[i].github_id == r2.github_id ==> s2[i].access_token
                == r2.access_token,
        forall|i: int, j: int|
            0 <= i < j < s2.len() ==> !(s2[i].github_id == r2.github_id && s2[j].github_id
                == r2.github_id),
{
    let gid = r1.github_id;
    if has_gid(s0, gid) {
        let w = idx_of_gid(s0, gid);
        assert(0 <= w < s0.len() && s0[w].github_id == gid);
        assert(s1[w].github_id == gid);
        assert(has_gid(s1, gid));
    } else {
        let k = insert_pos(s0, r1.created_at);
        lemma_insert_pos(s0, r1.created_at);
        assert(s1[k] == r1);
        assert(has_gid(s1, gid));
    }
    let w1 = idx_of_gid(s1, gid);
    assert(0 <= w1 < s1.len() && s1[w1].github_id == gid);
    assert(s2 == s1.update(w1, refreshed(s1[w1], r2)));
    assert(s2[w1].access_token == r2.access_token);
    assert(s2[w1].github_id == gid);
    assert(has_gid(s2, gid));
    assert forall|i: int|
        0 <= i < s2.len() && s2[i].github_id == r2.github_id implies s2[i].access_token
        == r2.access_token by {
        if i != w1 {
            assert(s2[i] == s1[i]);
            assert(gids_unique(s1));
            assert(false);
        }
    }
    assert forall|i: int, j: int|
        0 <= i < j < s2.len() implies !(s2[i].github_id == r2.github_id && s2[j].github_id
        == r2.github_id) by {
        if s2[i].github_id == gid && s2[j].github_id == gid {
            if i != w1 {
                assert(s2[i] == s1[i]);
            }
            if j != w1 {
                assert(s2[j] == s1[j]);
            }
            assert(gids_unique(s1));
        }
    }
}

} // verus!
