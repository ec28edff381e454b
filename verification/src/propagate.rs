//! The target-config propagator: where the target tool's credential file may
//! live, which existing file holds the active token, and what a token write
//! leaves in each candidate file.

use vstd::prelude::*;
use vstd::string::StringExecFns;

use crate::json::{
    merge_val, parse_of, rewritten_text, rewrite_credential_text, to_json_text, token_in,
    extract_token, parse_json, merge_token, text_of, Json, JsonVal,
};

verus! {

/// Relies on dirs_next::data_local_dir: the platform's local-data root, read
/// from the environment; nothing is promised of the outcome.
#[verifier::external_body]
pub fn local_data_root() -> (r: Option<String>) {
    dirs_next::data_local_dir().map(|p| p.to_string_lossy().into_owned())
}

/// Relies on dirs_next::home_dir: the home directory, read from the
/// environment; nothing is promised of the outcome.
#[verifier::external_body]
pub fn home_root() -> (r: Option<String>) {
    dirs_next::home_dir().map(|p| p.to_string_lossy().into_owned())
}

pub open spec fn opt_view(o: Option<String>) -> Option<Seq<char>> {
    match o {
        Some(s) => Some(s@),
        None => None,
    }
}

pub open spec fn paths_view(s: Seq<String>) -> Seq<Seq<char>> {
    Seq::new(s.len(), |i: int| s[i]@)
}

/// The fixed priority list of directories the target tool may keep its
/// credential file in: the local-data root's entry first, then the two
/// conventional home locations.
pub open spec fn dir_candidates(local: Option<Seq<char>>, home: Option<Seq<char>>) -> Seq<
    Seq<char>,
> {
    (match local {
        Some(l) => seq![l + "/opencode"@],
        None => Seq::<Seq<char>>::empty(),
    }) + (match home {
        Some(h) => seq![h + "/.local/share/opencode"@, h + "/.config/opencode"@],
        None => Seq::<Seq<char>>::empty(),
    })
}

/// The candidate directories for the given environment roots, in priority
/// order.
pub fn candidate_dirs(local: &Option<String>, home: &Option<String>) -> (r: Vec<String>)
    ensures
        paths_view(r@) == dir_candidates(opt_view(*local), opt_view(*home)),
{
    let mut r: Vec<String> = Vec::new();
    match local {
        Some(l) => {
            let mut d = l.clone();
            d.append("/opencode");
            r.push(d);
        },
        None => {},
    }
    match home {
        Some(h) => {
            let mut d1 = h.clone();
            d1.append("/.local/share/opencode");
            r.push(d1);
            let mut d2 = h.clone();
            d2.append("/.config/opencode");
            r.push(d2);
        },
        None => {},
    }
    proof {
        assert(paths_view(r@) =~= dir_candidates(opt_view(*local), opt_view(*home)));
    }
    r
}

/// The candidate credential files: each candidate directory's `auth.json`.
pub open spec fn file_candidates(local: Option<Seq<char>>, home: Option<Seq<char>>) -> Seq<
    Seq<char>,
> {
    dir_candidates(local, home).map_values(|d: Seq<char>| d + "/auth.json"@)
}

/// The candidate credential files for the given environment roots, in
/// priority order.
pub fn candidate_auth_files(local: &Option<String>, home: &Option<String>) -> (r: Vec<String>)
    ensures
        paths_view(r@) == file_candidates(opt_view(*local), opt_view(*home)),
{
    let dirs = candidate_dirs(local, home);
    let mut r: Vec<String> = Vec::new();
    let n = dirs.len();
    let mut i: usize = 0;
    while i < n
        invariant
            i <= n,
            n == dirs@.len(),
            paths_view(dirs@) == dir_candidates(opt_view(*local), opt_view(*home)),
            r@.len() == i,
            forall|j: int| 0 <= j < i ==> r@[j]@ == dirs@[j]@ + "/auth.json"@,
        decreases n - i,
    {
        let mut d = dirs[i].clone();
        d.append("/auth.json");
        r.push(d);
        i += 1;
    }
    proof {
        assert(paths_view(r@) =~= file_candidates(opt_view(*local), opt_view(*home)));
    }
    r
}

/// The candidate credential files on this machine, read from the
/// environment, in priority order.
pub fn locate_auth_files() -> (r: Vec<String>)
    ensures
        exists|l: Option<Seq<char>>, h: Option<Seq<char>>|
            paths_view(r@) == file_candidates(l, h),
{
    let local = local_data_root();
    let home = home_root();
    let r = candidate_auth_files(&local, &home);
    proof {
        assert(paths_view(r@) == file_candidates(opt_view(local), opt_view(home)));
    }
    r
}

/// One existing, readable candidate credential file: its modification time in
/// epoch seconds and its text.
pub struct CandidateFile {
    pub modified: i64,
    pub text: String,
}

pub open spec fn files_view(s: Seq<CandidateFile>) -> Seq<(i64, Seq<char>)> {
    Seq::new(s.len(), |i: int| (s[i].modified, s[i].text@))
}

/// The token a candidate file's text yields, if its text parses and holds a
/// recognized entry.
pub open spec fn token_of_text(s: Seq<char>) -> Option<Seq<char>> {
    match parse_of(s) {
        Some(j) => token_in(j),
        None => None,
    }
}

/// The token a candidate file's text yields.
pub fn token_of_file_text(s: &String) -> (r: Option<String>)
    ensures
        match r {
            Some(t) => token_of_text(s@) == Some(t@),
            None => token_of_text(s@) is None,
        },
{
    match parse_json(s.as_str()) {
        Some(j) => extract_token(&j),
        None => None,
    }
}

/// The scan over candidate files in priority order: a file is considered
/// only when its modification time is no older than the best so far (so a
/// pre-epoch time is never considered), and it takes the lead only when it
/// yields a token.
pub open spec fn scan_from(
    fs: Seq<(i64, Seq<char>)>,
    best_time: i64,
    best: Option<Seq<char>>,
) -> Option<Seq<char>>
    decreases fs.len(),
{
    if fs.len() == 0 {
        best
    } else if fs[0].0 >= best_time && token_of_text(fs[0].1) is Some {
        scan_from(fs.drop_first(), fs[0].0, token_of_text(fs[0].1))
    } else {
        scan_from(fs.drop_first(), best_time, best)
    }
}

/// The active token among the existing candidate files: the one from the
/// file with the latest modification time.
pub open spec fn spec_active_token(fs: Seq<(i64, Seq<char>)>) -> Option<Seq<char>> {
    scan_from(fs, 0, None)
}

/// Reads the active token out of the existing candidate files, handed over
/// in priority order with their modification times.
#[verifier::loop_isolation(false)]
pub fn read_active_token(files: &Vec<CandidateFile>) -> (r: Option<String>)
    ensures
        match r {
            Some(t) => spec_active_token(files_view(files@)) == Some(t@),
            None => spec_active_token(files_view(files@)) is None,
        },
{
    let ghost fsv = files_view(files@);
    let mut best: Option<String> = None;
    let mut best_time: i64 = 0;
    let n = files.len();
    let mut i: usize = 0;
    proof {
        assert(fsv.skip(0) =~= fsv);
    }
    while i < n
        invariant
            i <= n,
            scan_from(fsv.skip(i as int), best_time, opt_view(best)) == spec_active_token(fsv),
        decreases n - i,
    {
        proof {
            assert(fsv.skip(i as int)[0] == fsv[i as int]);
            assert(fsv.skip(i as int).drop_first() =~= fsv.skip(i as int + 1));
        }
        if files[i].modified >= best_time {
            match token_of_file_text(&files[i].text) {
                Some(t) => {
                    best_time = files[i].modified;
                    best = Some(t);
                },
                None => {},
            }
        }
        i += 1;
    }
    proof {
        assert(fsv.skip(i as int) =~= Seq::<(i64, Seq<char>)>::empty());
    }
    best
}

pub open spec fn yields(f: (i64, Seq<char>)) -> bool {
    token_of_text(f.1) is Some
}

proof fn lemma_scan_latest(fs: Seq<(i64, Seq<char>)>, best_time: i64, best: Option<Seq<char>>)
    requires
        forall|i: int| 0 <= i < fs.len() ==> #[trigger] fs[i].0 >= 0,
        best_time >= 0,
    ensures
        !(exists|j: int| 0 <= j < fs.len() && #[trigger] yields(fs[j]) && fs[j].0 >= best_time)
            ==> scan_from(fs, best_time, best) == best,
        (exists|j: int| 0 <= j < fs.len() && #[trigger] yields(fs[j]) && fs[j].0 >= best_time)
            ==> exists|i: int|
            {
                &&& 0 <= i < fs.len()
                &&& #[trigger] yields(fs[i])
                &&& fs[i].0 >= best_time
                &&& scan_from(fs, best_time, best) == token_of_text(fs[i].1)
                &&& forall|j: int| 0 <= j < fs.len() && #[trigger] yields(fs[j]) ==> fs[j].0 <= fs[i].0 || fs[j].0 < best_time
            },
    decreases fs.len(),
{
    if fs.len() == 0 {
    } else {
        let rest = fs.drop_first();
        assert(forall|i: int| 0 <= i < rest.len() ==> rest[i] == fs[i + 1]);
        if fs[0].0 >= best_time && yields(fs[0]) {
            lemma_scan_latest(rest, fs[0].0, token_of_text(fs[0].1));
            if exists|j: int| 0 <= j < rest.len() && #[trigger] yields(rest[j]) && rest[j].0
                >= fs[0].0 {
                let i0 = choose|i: int|
                    {
                        &&& 0 <= i < rest.len()
                        &&& #[trigger] yields(rest[i])
                        &&& rest[i].0 >= fs[0].0
                        &&& scan_from(rest, fs[0].0, token_of_text(fs[0].1)) == token_of_text(
                            rest[i].1,
                        )
                        &&& forall|j: int| 0 <= j < rest.len() && #[trigger] yields(rest[j])
                            ==> rest[j].0 <= rest[i].0 || rest[j].0 < fs[0].0
                    };
                let i = i0 + 1;
                assert(fs[i] == rest[i0]);
                assert forall|j: int| 0 <= j < fs.len() && #[trigger] yields(fs[j]) implies fs[j].0
                    <= fs[i].0 || fs[j].0 < best_time by {
                    if j > 0 {
                        assert(fs[j] == rest[j - 1]);
                    }
                }
                assert(yields(fs[i]) && fs[i].0 >= best_time && scan_from(fs, best_time, best)
                    == token_of_text(fs[i].1));
            } else {
                assert(scan_from(rest, fs[0].0, token_of_text(fs[0].1)) == token_of_text(fs[0].1));
                assert forall|j: int| 0 <= j < fs.len() && #[trigger] yields(fs[j]) implies fs[j].0
                    <= fs[0].0 || fs[j].0 < best_time by {
                    if j > 0 {
                        assert(fs[j] == rest[j - 1]);
                    }
                }
                assert(yields(fs[0]) && fs[0].0 >= best_time && scan_from(fs, best_time, best)
                    == token_of_text(fs[0].1));
            }
        } else {
            lemma_scan_latest(rest, best_time, best);
            if exists|j: int| 0 <= j < fs.len() && #[trigger] yields(fs[j]) && fs[j].0
                >= best_time {
                let j0 = choose|j: int|
                    0 <= j < fs.len() && #[trigger] yields(fs[j]) && fs[j].0 >= best_time;
                assert(j0 != 0);
                assert(rest[j0 - 1] == fs[j0]);
                assert(exists|j: int| 0 <= j < rest.len() && #[trigger] yields(rest[j])
                    && rest[j].0 >= best_time);
                let i0 = choose|i: int|
                    {
                        &&& 0 <= i < rest.len()
                        &&& #[trigger] yields(rest[i])
                        &&& rest[i].0 >= best_time
                        &&& scan_from(rest, best_time, best) == token_of_text(rest[i].1)
                        &&& forall|j: int| 0 <= j < rest.len() && #[trigger] yields(rest[j])
                            ==> rest[j].0 <= rest[i].0 || rest[j].0 < best_time
                    };
                let i = i0 + 1;
                assert(fs[i] == rest[i0]);
                assert forall|j: int| 0 <= j < fs.len() && #[trigger] yields(fs[j]) implies fs[j].0
                    <= fs[i].0 || fs[j].0 < best_time by {
                    if j > 0 {
                        assert(fs[j] == rest[j - 1]);
                    }
                }
                assert(yields(fs[i]) && fs[i].0 >= best_time && scan_from(fs, best_time, best)
                    == token_of_text(fs[i].1));
            }
        }
    }
}

/// The selection law: over candidate files with non-negative modification
/// times, the scan returns nothing exactly when no file yields a token, and
/// otherwise returns the token of a yielding file whose modification time is
/// the latest among all yielding files.
pub proof fn lemma_active_token_latest(fs: Seq<(i64, Seq<char>)>)
    requires
        forall|i: int| 0 <= i < fs.len() ==> #[trigger] fs[i].0 >= 0,
    ensures
        (spec_active_token(fs) is None) == (forall|i: int|
            0 <= i < fs.len() ==> !#[trigger] yields(fs[i])),
        (spec_active_token(fs) is Some) ==> exists|i: int|
            {
                &&& 0 <= i < fs.len()
                &&& #[trigger] yields(fs[i])
                &&& spec_active_token(fs) == token_of_text(fs[i].1)
                &&& forall|j: int| 0 <= j < fs.len() && #[trigger] yields(fs[j]) ==> fs[j].0
                    <= fs[i].0
            },
{
    lemma_scan_latest(fs, 0, None);
    if exists|j: int| 0 <= j < fs.len() && #[trigger] yields(fs[j]) && fs[j].0 >= 0 {
        assert(spec_active_token(fs) is Some);
    } else {
        assert(forall|i: int| 0 <= i < fs.len() ==> !#[trigger] yields(fs[i]));
    }
}

/// The content written over each candidate: every existing file is rewritten
/// in place; when no candidate file exists at all, exactly the
/// highest-priority candidate is written, seeded with the `auth` wrapper.
pub open spec fn plan_view(fs: Seq<Option<Seq<char>>>, token: Seq<char>) -> Seq<
    Option<Seq<char>>,
> {
    if exists|i: int| 0 <= i < fs.len() && #[trigger] fs[i] is Some {
        Seq::new(
            fs.len(),
            |i: int|
                match fs[i] {
                    Some(s) => Some(rewritten_text(s, token, false)),
                    None => None,
                },
        )
    } else if fs.len() > 0 {
        Seq::new(
            fs.len(),
            |i: int|
                if i == 0 {
                    Some(text_of(merge_val(JsonVal::Object(Seq::empty()), token, true)))
                } else {
                    None
                },
        )
    } else {
        Seq::empty()
    }
}

pub open spec fn opts_view(s: Seq<Option<String>>) -> Seq<Option<Seq<char>>> {
    Seq::new(
        s.len(),
        |i: int|
            match s[i] {
                Some(t) => Some(t@),
                None => None,
            },
    )
}

/// Plans a token write over the candidate files, handed over in priority
/// order: `Some(text)` is the content the candidate's existing file at that
/// position held, `None` says it has none. The result gives, per candidate,
/// the text to write atomically, or `None` to leave it alone.
#[verifier::loop_isolation(false)]
pub fn apply_token_plan(files: &Vec<Option<String>>, token: &str) -> (plan: Vec<Option<String>>)
    ensures
        opts_view(plan@) == plan_view(opts_view(files@), token@),
{
    let ghost fsv = opts_view(files@);
    let n = files.len();
    let mut any = false;
    let mut i: usize = 0;
    while i < n
        invariant
            i <= n,
            any == exists|j: int| 0 <= j < i && #[trigger] fsv[j] is Some,
        decreases n - i,
    {
        proof {
            assert(fsv[i as int] == (match files@[i as int] {
                Some(t) => Some(t@),
                None => None::<Seq<char>>,
            }));
        }
        match &files[i] {
            Some(_) => {
                any = true;
            },
            None => {},
        }
        i += 1;
    }
    let mut plan: Vec<Option<String>> = Vec::new();
    if any {
        let mut i: usize = 0;
        while i < n
            invariant
                i <= n,
                plan@.len() == i,
                forall|j: int| 0 <= j < i ==> opts_view(plan@)[j] == (match fsv[j] {
                    Some(s) => Some(rewritten_text(s, token@, false)),
                    None => None::<Seq<char>>,
                }),
            decreases n - i,
        {
            let ghost plan0 = plan@;
            proof {
                assert(fsv[i as int] == (match files@[i as int] {
                    Some(t) => Some(t@),
                    None => None::<Seq<char>>,
                }));
            }
            match &files[i] {
                Some(s) => {
                    plan.push(Some(rewrite_credential_text(s, token, false)));
                },
                None => {
                    plan.push(None);
                },
            }
            proof {
                assert forall|j: int| 0 <= j < i + 1 implies opts_view(plan@)[j] == (match fsv[j] {
                    Some(s2) => Some(rewritten_text(s2, token@, false)),
                    None => None::<Seq<char>>,
                }) by {
                    if j < i as int {
                        assert(plan@[j] == plan0[j]);
                        assert(opts_view(plan0)[j] == (match fsv[j] {
                            Some(s2) => Some(rewritten_text(s2, token@, false)),
                            None => None::<Seq<char>>,
                        }));
                    }
                }
            }
            i += 1;
        }
        proof {
            assert(opts_view(plan@) =~= plan_view(fsv, token@));
        }
    } else if n > 0 {
        let fresh = merge_token(Json::Object(Vec::new()), token, true);
        proof {
            assert(crate::json::entries_view(Seq::<(String, Json)>::empty())
                =~= Seq::<(Seq<char>, JsonVal)>::empty());
        }
        plan.push(Some(to_json_text(&fresh)));
        let mut i: usize = 1;
        while i < n
            invariant
                1 <= i <= n,
                plan@.len() == i,
                opts_view(plan@)[0] == Some(
                    text_of(merge_val(JsonVal::Object(Seq::empty()), token@, true)),
                ),
                forall|j: int| 1 <= j < i ==> opts_view(plan@)[j] is None,
            decreases n - i,
        {
            let ghost plan0 = plan@;
            plan.push(None);
            proof {
                assert(opts_view(plan@)[0] == opts_view(plan0)[0]);
                assert forall|j: int| 1 <= j < i + 1 implies opts_view(plan@)[j] is None by {
                    if j < i as int {
                        assert(plan@[j] == plan0[j]);
                        assert(opts_view(plan0)[j] is None);
                    }
                }
            }
            i += 1;
        }
        proof {
            assert(opts_view(plan@) =~= plan_view(fsv, token@));
        }
    } else {
        proof {
            assert(opts_view(plan@) =~= plan_view(fsv, token@));
        }
    }
    plan
}

/// The no-new-files law: when any candidate file exists, the plan writes
/// exactly the existing files; when none exists, it writes exactly the
/// highest-priority candidate.
pub proof fn lemma_plan_no_new_files(fs: Seq<Option<Seq<char>>>, token: Seq<char>)
    ensures
        (exists|i: int| 0 <= i < fs.len() && #[trigger] fs[i] is Some) ==> forall|i: int|
            0 <= i < fs.len() ==> (#[trigger] plan_view(fs, token)[i] is Some <==> fs[i] is Some),
        (fs.len() > 0 && forall|i: int| 0 <= i < fs.len() ==> #[trigger] fs[i] is None) ==> {
            &&& plan_view(fs, token)[0] is Some
            &&& forall|i: int| 1 <= i < fs.len() ==> #[trigger] plan_view(fs, token)[i] is None
        },
{
}

} // verus!
