//! The JSON model used by the target-config propagator: a tree type, its
//! mathematical view, lookup/update of object keys, recognition of the
//! provider credential entry, and the read-merge rules for a credential file.

use vstd::prelude::*;

verus! {

/// Mathematical model of a JSON document.
pub enum JsonVal {
    Null,
    Boolean(bool),
    Number(Seq<char>),
    Text(Seq<char>),
    Array(Seq<JsonVal>),
    Object(Seq<(Seq<char>, JsonVal)>),
}

/// Executable JSON document. Numbers keep their literal spelling so that a
/// document can be carried through a rewrite without loss.
pub enum Json {
    Null,
    Boolean(bool),
    Number(String),
    Text(String),
    Array(Vec<Json>),
    Object(Vec<(String, Json)>),
}

/// The view of an executable document: the same tree over sequences.
pub open spec fn json_view(j: Json) -> JsonVal
    decreases j, 1int,
    via json_view_dec
{
    match j {
        Json::Null => JsonVal::Null,
        Json::Boolean(b) => JsonVal::Boolean(b),
        Json::Number(s) => JsonVal::Number(s@),
        Json::Text(s) => JsonVal::Text(s@),
        Json::Array(v) => JsonVal::Array(items_view(v@)),
        Json::Object(v) => JsonVal::Object(entries_view(v@)),
    }
}

/// The view of an array's element list.
pub open spec fn items_view(s: Seq<Json>) -> Seq<JsonVal>
    decreases s, 0int,
    via items_view_dec
{
    if s.len() == 0 {
        Seq::empty()
    } else {
        seq![json_view(s[0])] + items_view(s.drop_first())
    }
}

#[via_fn]
proof fn items_view_dec(s: Seq<Json>) {
    if s.len() > 0 {
        vstd::seq::axiom_seq_index_decreases(s, 0);
        vstd::seq::axiom_seq_subrange_decreases(s, 1, s.len() as int);
        assert(decreases_to!(s => s.drop_first()));
    }
}

/// The view of an object's entry list.
pub open spec fn entries_view(s: Seq<(String, Json)>) -> Seq<(Seq<char>, JsonVal)>
    decreases s, 0int,
    via entries_view_dec
{
    if s.len() == 0 {
        Seq::empty()
    } else {
        seq![(s[0].0@, json_view(s[0].1))] + entries_view(s.drop_first())
    }
}

#[via_fn]
proof fn entries_view_dec(s: Seq<(String, Json)>) {
    if s.len() > 0 {
        vstd::seq::axiom_seq_index_decreases(s, 0);
        vstd::seq::axiom_seq_subrange_decreases(s, 1, s.len() as int);
        assert(decreases_to!(s => s.drop_first()));
        assert(decreases_to!(s[0] => s[0].1));
    }
}

#[via_fn]
proof fn json_view_dec(j: Json) {
    match j {
        Json::Array(v) => {
            vstd::std_specs::vec::axiom_vec_decreases_to_view(v);
            assert(decreases_to!(j => v));
            assert(decreases_to!(v => v@));
        },
        Json::Object(v) => {
            vstd::std_specs::vec::axiom_vec_decreases_to_view(v);
            assert(decreases_to!(j => v));
            assert(decreases_to!(v => v@));
        },
        _ => {},
    }
}

impl View for Json {
    type V = JsonVal;

    open spec fn view(&self) -> JsonVal {
        json_view(*self)
    }
}

/// The value under the first entry with the given key, if any.
pub open spec fn lookup(es: Seq<(Seq<char>, JsonVal)>, k: Seq<char>) -> Option<JsonVal>
    decreases es.len(),
{
    if es.len() == 0 {
        None
    } else if es[0].0 == k {
        Some(es[0].1)
    } else {
        lookup(es.drop_first(), k)
    }
}

/// The entry list with the first entry of the given key replaced, or with the
/// entry appended when the key is absent.
pub open spec fn set_key(
    es: Seq<(Seq<char>, JsonVal)>,
    k: Seq<char>,
    v: JsonVal,
) -> Seq<(Seq<char>, JsonVal)>
    decreases es.len(),
{
    if es.len() == 0 {
        seq![(k, v)]
    } else if es[0].0 == k {
        seq![(k, v)] + es.drop_first()
    } else {
        seq![es[0]] + set_key(es.drop_first(), k, v)
    }
}

pub proof fn lemma_lookup_set_same(es: Seq<(Seq<char>, JsonVal)>, k: Seq<char>, v: JsonVal)
    ensures
        lookup(set_key(es, k, v), k) == Some(v),
    decreases es.len(),
{
    if es.len() == 0 {
    } else if es[0].0 == k {
    } else {
        lemma_lookup_set_same(es.drop_first(), k, v);
        assert((seq![es[0]] + set_key(es.drop_first(), k, v)).drop_first()
            =~= set_key(es.drop_first(), k, v));
    }
}

pub proof fn lemma_lookup_set_other(
    es: Seq<(Seq<char>, JsonVal)>,
    k: Seq<char>,
    v: JsonVal,
    k2: Seq<char>,
)
    requires
        k2 != k,
    ensures
        lookup(set_key(es, k, v), k2) == lookup(es, k2),
    decreases es.len(),
{
    reveal_with_fuel(lookup, 3);
    reveal_with_fuel(set_key, 3);
    if es.len() == 0 {
        assert(set_key(es, k, v)[0] == (k, v));
        assert(set_key(es, k, v).len() == 1);
        assert(set_key(es, k, v).drop_first()
            =~= Seq::<(Seq<char>, JsonVal)>::empty());
        assert(lookup(set_key(es, k, v), k2) == lookup(es, k2));
    } else if es[0].0 == k {
        let t = seq![(k, v)] + es.drop_first();
        assert(set_key(es, k, v) == t);
        assert(t[0] == (k, v));
        assert(t.drop_first() =~= es.drop_first());
        assert(lookup(t, k2) == lookup(es.drop_first(), k2));
        assert(lookup(es, k2) == lookup(es.drop_first(), k2));
        assert(lookup(set_key(es, k, v), k2) == lookup(es, k2));
    } else {
        lemma_lookup_set_other(es.drop_first(), k, v, k2);
        let t = seq![es[0]] + set_key(es.drop_first(), k, v);
        assert(set_key(es, k, v) == t);
        assert(t[0] == es[0]);
        assert(t.drop_first() =~= set_key(es.drop_first(), k, v));
        assert(lookup(t, k2) == lookup(t.drop_first(), k2) || (t[0].0 == k2 && lookup(t, k2) == Some(t[0].1)));
        assert(lookup(set_key(es, k, v), k2) == lookup(es, k2));
    }
}

pub proof fn lemma_set_key_noop(es: Seq<(Seq<char>, JsonVal)>, k: Seq<char>, v: JsonVal)
    requires
        lookup(es, k) == Some(v),
    ensures
        set_key(es, k, v) =~= es,
    decreases es.len(),
{
    if es.len() == 0 {
    } else if es[0].0 == k {
        let a = seq![(k, v)] + es.drop_first();
        assert(a[0] == (k, v));
        assert(a =~= es);
    } else {
        lemma_set_key_noop(es.drop_first(), k, v);
        let a = seq![es[0]] + set_key(es.drop_first(), k, v);
        assert(a[0] == es[0]);
        assert(a =~= es);
    }
}


pub proof fn lemma_entries_view(s: Seq<(String, Json)>)
    ensures
        entries_view(s).len() == s.len(),
        forall|i: int|
            0 <= i < s.len() ==> entries_view(s)[i] == (s[i].0@, json_view(s[i].1)),
    decreases s.len(),
{
    if s.len() > 0 {
        lemma_entries_view(s.drop_first());
        assert(entries_view(s) == seq![(s[0].0@, json_view(s[0].1))] + entries_view(s.drop_first()));
        assert forall|i: int|
            0 <= i < s.len() implies entries_view(s)[i] == (s[i].0@, json_view(s[i].1)) by {
            if i > 0 {
                assert(entries_view(s)[i] == entries_view(s.drop_first())[i - 1]);
                assert(s.drop_first()[i - 1] == s[i]);
            }
        }
    }
}

pub proof fn lemma_lookup_first(esv: Seq<(Seq<char>, JsonVal)>, k: Seq<char>, i: int)
    requires
        0 <= i < esv.len(),
        forall|j: int| 0 <= j < i ==> esv[j].0 != k,
        esv[i].0 == k,
    ensures
        lookup(esv, k) == Some(esv[i].1),
    decreases esv.len(),
{
    if i > 0 {
        lemma_lookup_first(esv.drop_first(), k, i - 1);
    }
}

pub proof fn lemma_lookup_absent(esv: Seq<(Seq<char>, JsonVal)>, k: Seq<char>)
    requires
        forall|j: int| 0 <= j < esv.len() ==> esv[j].0 != k,
    ensures
        lookup(esv, k) is None,
    decreases esv.len(),
{
    if esv.len() > 0 {
        lemma_lookup_absent(esv.drop_first(), k);
    }
}

pub proof fn lemma_set_key_at(esv: Seq<(Seq<char>, JsonVal)>, k: Seq<char>, v: JsonVal, i: int)
    requires
        0 <= i < esv.len(),
        forall|j: int| 0 <= j < i ==> esv[j].0 != k,
        esv[i].0 == k,
    ensures
        set_key(esv, k, v) =~= esv.update(i, (k, v)),
    decreases esv.len(),
{
    if i == 0 {
        assert(set_key(esv, k, v) == seq![(k, v)] + esv.drop_first());
        assert(seq![(k, v)] + esv.drop_first() =~= esv.update(0, (k, v)));
    } else {
        lemma_set_key_at(esv.drop_first(), k, v, i - 1);
        assert(set_key(esv, k, v) == seq![esv[0]] + set_key(esv.drop_first(), k, v));
        assert(seq![esv[0]] + esv.drop_first().update(i - 1, (k, v)) =~= esv.update(i, (k, v)));
    }
}

pub proof fn lemma_set_key_absent(esv: Seq<(Seq<char>, JsonVal)>, k: Seq<char>, v: JsonVal)
    requires
        forall|j: int| 0 <= j < esv.len() ==> esv[j].0 != k,
    ensures
        set_key(esv, k, v) =~= esv.push((k, v)),
    decreases esv.len(),
{
    if esv.len() == 0 {
        assert(set_key(esv, k, v) == seq![(k, v)]);
        assert(seq![(k, v)] =~= esv.push((k, v)));
    } else {
        lemma_set_key_absent(esv.drop_first(), k, v);
        assert(set_key(esv, k, v) == seq![esv[0]] + set_key(esv.drop_first(), k, v));
        assert(seq![esv[0]] + esv.drop_first().push((k, v)) =~= esv.push((k, v)));
    }
}

/// The key the managed provider entry sits under.
pub open spec fn provider_key() -> Seq<char> {
    "github-copilot"@
}

/// The key of the legacy wrapper object.
pub open spec fn auth_key() -> Seq<char> {
    "auth"@
}

pub proof fn lemma_keys_distinct()
    ensures
        provider_key() != auth_key(),
{
    reveal_strlit("github-copilot");
    reveal_strlit("auth");
    assert(provider_key().len() == 14);
    assert(auth_key().len() == 4);
}

/// The credential entry written for a token.
pub open spec fn provider_entry_val(token: Seq<char>) -> JsonVal {
    JsonVal::Object(
        seq![
            ("type"@, JsonVal::Text("oauth"@)),
            ("refresh"@, JsonVal::Text(token)),
            ("access"@, JsonVal::Text(token)),
            ("expires"@, JsonVal::Number("0"@)),
        ],
    )
}

/// The access token held by a provider entry, when the entry is an object
/// whose `access` member is a string.
pub open spec fn entry_access(e: JsonVal) -> Option<Seq<char>> {
    match e {
        JsonVal::Object(es) => match lookup(es, "access"@) {
            Some(JsonVal::Text(t)) => Some(t),
            _ => None,
        },
        _ => None,
    }
}

/// The token a credential document holds: the direct shape is recognized
/// first, then the same entry nested one level under `auth`.
pub open spec fn token_in(j: JsonVal) -> Option<Seq<char>> {
    match j {
        JsonVal::Object(es) => {
            let direct = match lookup(es, provider_key()) {
                Some(e) => entry_access(e),
                None => None,
            };
            if direct is Some {
                direct
            } else {
                match lookup(es, auth_key()) {
                    Some(JsonVal::Object(aes)) => match lookup(aes, provider_key()) {
                        Some(e) => entry_access(e),
                        None => None,
                    },
                    _ => None,
                }
            }
        },
        _ => None,
    }
}

/// The entries of a document after the provider entry is merged in: the entry
/// is always set at the top level; it is set under `auth` only when an `auth`
/// object is already present, except that `seed` additionally creates the
/// `auth` wrapper when it is absent (used only for a freshly created file).
pub open spec fn merge_entries(j: JsonVal, token: Seq<char>, seed: bool) -> Seq<
    (Seq<char>, JsonVal),
> {
    let base = match j {
        JsonVal::Object(es) => es,
        _ => Seq::empty(),
    };
    let top = set_key(base, provider_key(), provider_entry_val(token));
    match lookup(top, auth_key()) {
        Some(JsonVal::Object(aes)) => set_key(
            top,
            auth_key(),
            JsonVal::Object(set_key(aes, provider_key(), provider_entry_val(token))),
        ),
        Some(_) => top,
        None => if seed {
            set_key(
                top,
                auth_key(),
                JsonVal::Object(seq![(provider_key(), provider_entry_val(token))]),
            )
        } else {
            top
        },
    }
}

/// A document after the provider entry is merged in.
pub open spec fn merge_val(j: JsonVal, token: Seq<char>, seed: bool) -> JsonVal {
    JsonVal::Object(merge_entries(j, token, seed))
}

/// Merging a token into a document it was already merged into changes
/// nothing: a second rewrite of a credential file is the identity.
pub proof fn lemma_merge_idempotent(j: JsonVal, token: Seq<char>, seed: bool)
    ensures
        merge_val(merge_val(j, token, seed), token, false) == merge_val(j, token, seed),
{
    lemma_keys_distinct();
    let gh = provider_key();
    let au = auth_key();
    let entry = provider_entry_val(token);
    let base = match j {
        JsonVal::Object(es) => es,
        _ => Seq::<(Seq<char>, JsonVal)>::empty(),
    };
    let top = set_key(base, gh, entry);
    lemma_lookup_set_same(base, gh, entry);
    let m1 = merge_entries(j, token, seed);
    // in every case the provider entry is still the first merge's value
    match lookup(top, au) {
        Some(JsonVal::Object(aes)) => {
            lemma_lookup_set_other(top, au, JsonVal::Object(set_key(aes, gh, entry)), gh);
            assert(lookup(m1, gh) == Some(entry));
        },
        Some(_) => {
            assert(lookup(m1, gh) == Some(entry));
        },
        None => {
            if seed {
                lemma_lookup_set_other(
                    top,
                    au,
                    JsonVal::Object(seq![(gh, entry)]),
                    gh,
                );
            }
            assert(lookup(m1, gh) == Some(entry));
        },
    }
    lemma_set_key_noop(m1, gh, entry);
    let top2 = set_key(m1, gh, entry);
    assert(top2 == m1);
    match lookup(top, au) {
        Some(JsonVal::Object(aes)) => {
            let aes2 = set_key(aes, gh, entry);
            lemma_lookup_set_same(top, au, JsonVal::Object(aes2));
            assert(lookup(m1, au) == Some(JsonVal::Object(aes2)));
            lemma_lookup_set_same(aes, gh, entry);
            lemma_set_key_noop(aes2, gh, entry);
            assert(set_key(aes2, gh, entry) == aes2);
            lemma_set_key_noop(m1, au, JsonVal::Object(aes2));
            assert(merge_entries(merge_val(j, token, seed), token, false)
                == set_key(top2, au, JsonVal::Object(set_key(aes2, gh, entry))));
            assert(set_key(m1, au, JsonVal::Object(aes2)) == m1);
        },
        Some(_) => {
            assert(m1 == top);
            assert(merge_entries(merge_val(j, token, seed), token, false) == top2);
        },
        None => {
            if seed {
                let s0 = seq![(gh, entry)];
                lemma_lookup_set_same(top, au, JsonVal::Object(s0));
                assert(lookup(m1, au) == Some(JsonVal::Object(s0)));
                assert(s0[0].0 == gh);
                assert(lookup(s0, gh) == Some(entry));
                lemma_set_key_noop(s0, gh, entry);
                assert(set_key(s0, gh, entry) == s0);
                lemma_set_key_noop(m1, au, JsonVal::Object(s0));
                assert(merge_entries(merge_val(j, token, seed), token, false)
                    == set_key(top2, au, JsonVal::Object(set_key(s0, gh, entry))));
                assert(set_key(m1, au, JsonVal::Object(s0)) == m1);
            } else {
                assert(m1 == top);
                assert(merge_entries(merge_val(j, token, seed), token, false) == top2);
            }
        },
    }
}


pub proof fn lemma_view_object(j: Json)
    ensures
        (json_view(j) is Object) == (j is Object),
{
    match j {
        Json::Null => {},
        Json::Boolean(_) => {},
        Json::Number(_) => {},
        Json::Text(_) => {},
        Json::Array(_) => {},
        Json::Object(_) => {},
    }
}

/// First entry of an object's entry list with the given key, if any.
#[verifier::loop_isolation(false)]
pub fn obj_get<'a>(es: &'a Vec<(String, Json)>, key: &String) -> (r: Option<&'a Json>)
    ensures
        match r {
            Some(v) => lookup(entries_view(es@), key@) == Some(json_view(*v)),
            None => lookup(entries_view(es@), key@) is None,
        },
{
    let n = es.len();
    let mut i: usize = 0;
    while i < n
        invariant
            n == es.len(),
            i <= n,
            forall|j: int| 0 <= j < i ==> entries_view(es@)[j].0 != key@,
        decreases n - i,
    {
        proof {
            lemma_entries_view(es@);
        }
        if es[i].0 == *key {
            proof {
                lemma_lookup_first(entries_view(es@), key@, i as int);
            }
            return Some(&es[i].1);
        }
        i += 1;
    }
    proof {
        lemma_entries_view(es@);
        lemma_lookup_absent(entries_view(es@), key@);
    }
    None
}

/// An object's entry list with the entry for the given key replaced, or
/// appended when the key is absent.
#[verifier::loop_isolation(false)]
pub fn obj_set(es: Vec<(String, Json)>, key: String, val: Json) -> (r: Vec<(String, Json)>)
    ensures
        entries_view(r@) == set_key(entries_view(es@), key@, json_view(val)),
{
    let ghost es0 = es@;
    let ghost kv = (key@, json_view(val));
    let mut es = es;
    let n = es.len();
    let mut i: usize = 0;
    while i < n
        invariant
            es@ == es0,
            n == es0.len(),
            i <= n,
            kv == (key@, json_view(val)),
            forall|j: int| 0 <= j < i ==> entries_view(es0)[j].0 != key@,
        decreases n - i,
    {
        proof {
            lemma_entries_view(es0);
        }
        if es[i].0 == key {
            proof {
                lemma_set_key_at(entries_view(es0), key@, json_view(val), i as int);
            }
            es.remove(i);
            es.insert(i, (key, val));
            proof {
                lemma_entries_view(es@);
                assert(es@ =~= es0.update(i as int, es@[i as int]));
                assert(entries_view(es@) =~= entries_view(es0).update(i as int, kv));
                assert(entries_view(es@) == set_key(entries_view(es0), kv.0, kv.1));
            }
            return es;
        }
        i += 1;
    }
    proof {
        lemma_entries_view(es0);
        lemma_set_key_absent(entries_view(es0), key@, json_view(val));
    }
    es.push((key, val));
    proof {
        lemma_entries_view(es@);
        assert(entries_view(es@) =~= entries_view(es0).push(kv));
    }
    es
}

/// The credential entry written for a token.
pub fn provider_entry(token: &str) -> (r: Json)
    ensures
        r@ == provider_entry_val(token@),
{
    let mut es: Vec<(String, Json)> = Vec::new();
    es.push(("type".to_owned(), Json::Text("oauth".to_owned())));
    es.push(("refresh".to_owned(), Json::Text(token.to_owned())));
    es.push(("access".to_owned(), Json::Text(token.to_owned())));
    es.push(("expires".to_owned(), Json::Number("0".to_owned())));
    proof {
        lemma_entries_view(es@);
        assert(entries_view(es@) =~= seq![
            ("type"@, JsonVal::Text("oauth"@)),
            ("refresh"@, JsonVal::Text(token@)),
            ("access"@, JsonVal::Text(token@)),
            ("expires"@, JsonVal::Number("0"@)),
        ]);
    }
    Json::Object(es)
}

/// The access token a provider entry holds, when it holds one.
fn entry_access_token(e: &Json) -> (r: Option<String>)
    ensures
        match r {
            Some(t) => entry_access(json_view(*e)) == Some(t@),
            None => entry_access(json_view(*e)) is None,
        },
{
    match e {
        Json::Object(es) => {
            let key = "access".to_owned();
            match obj_get(es, &key) {
                Some(Json::Text(t)) => Some(t.clone()),
                Some(_) => None,
                None => None,
            }
        },
        _ => None,
    }
}

/// The token a credential document holds under either recognized shape, the
/// direct one checked first.
pub fn extract_token(j: &Json) -> (r: Option<String>)
    ensures
        match r {
            Some(t) => token_in(j@) == Some(t@),
            None => token_in(j@) is None,
        },
{
    match j {
        Json::Object(es) => {
            let gh = "github-copilot".to_owned();
            let direct = match obj_get(es, &gh) {
                Some(e) => entry_access_token(e),
                None => None,
            };
            if direct.is_some() {
                return direct;
            }
            let au = "auth".to_owned();
            match obj_get(es, &au) {
                Some(Json::Object(aes)) => match obj_get(aes, &gh) {
                    Some(e) => entry_access_token(e),
                    None => None,
                },
                Some(_) => None,
                None => None,
            }
        },
        _ => None,
    }
}

/// A document with the provider entry merged in, as `merge_val` states.
#[verifier::loop_isolation(false)]
pub fn merge_token(j: Json, token: &str, seed: bool) -> (r: Json)
    ensures
        r@ == merge_val(j@, token@, seed),
{
    let ghost jv = j@;
    proof {
        lemma_view_object(j);
    }
    let is_obj = match &j {
        Json::Object(_) => true,
        _ => false,
    };
    let base: Vec<(String, Json)> = match j {
        Json::Object(es) => es,
        _ => Vec::new(),
    };
    let ghost basev = entries_view(base@);
    proof {
        if !is_obj {
            assert(entries_view(base@) =~= Seq::<(Seq<char>, JsonVal)>::empty());
        }
        assert(basev == (match jv {
            JsonVal::Object(es) => es,
            _ => Seq::<(Seq<char>, JsonVal)>::empty(),
        }));
    }
    let entry = provider_entry(token);
    let ghost entryv = entry@;
    let mut top = obj_set(base, "github-copilot".to_owned(), entry);
    let ghost topv = entries_view(top@);
    let au = "auth".to_owned();
    let n = top.len();
    let mut i: usize = 0;
    while i < n
        invariant
            entries_view(top@) == topv,
            n == top.len(),
            i <= n,
            au@ == "auth"@,
            entryv == provider_entry_val(token@),
            forall|j2: int| 0 <= j2 < i ==> topv[j2].0 != "auth"@,
        decreases n - i,
    {
        proof {
            lemma_entries_view(top@);
        }
        if top[i].0 == au {
            proof {
                lemma_lookup_first(topv, "auth"@, i as int);
            }
            let ghost top_before = top@;
            let pair = top.remove(i);
            let (k0, v0) = pair;
            proof {
                lemma_view_object(v0);
            }
            match v0 {
                Json::Object(aes) => {
                    let ghost aesv = entries_view(aes@);
                    let new_auth = Json::Object(
                        obj_set(aes, "github-copilot".to_owned(), provider_entry(token)),
                    );
                    proof {
                        lemma_set_key_at(topv, "auth"@, new_auth@, i as int);
                    }
                    top.insert(i, (k0, new_auth));
                    proof {
                        lemma_entries_view(top@);
                        assert(top@ =~= top_before.update(i as int, top@[i as int]));
                        assert(entries_view(top@)
                            =~= topv.update(i as int, ("auth"@, new_auth@)));
                        assert(lookup(topv, auth_key())
                            == Some(JsonVal::Object(aesv)));
                        assert(entries_view(top@) == merge_entries(jv, token@, seed));
                    }
                    return Json::Object(top);
                },
                other => {
                    top.insert(i, (k0, other));
                    proof {
                        lemma_entries_view(top@);
                        assert(top@ =~= top_before);
                        assert(entries_view(top@) =~= topv);
                        assert(lookup(topv, auth_key()) is Some);
                        assert(!(lookup(topv, auth_key()).unwrap() is Object));
                        assert(entries_view(top@) == merge_entries(jv, token@, seed));
                    }
                    return Json::Object(top);
                },
            }
        }
        i += 1;
    }
    proof {
        lemma_entries_view(top@);
        lemma_lookup_absent(topv, "auth"@);
    }
    if seed {
        let mut aes: Vec<(String, Json)> = Vec::new();
        aes.push(("github-copilot".to_owned(), provider_entry(token)));
        proof {
            lemma_entries_view(aes@);
            assert(entries_view(aes@) =~= seq![(provider_key(), provider_entry_val(token@))]);
        }
        let seeded = Json::Object(aes);
        proof {
            lemma_set_key_absent(topv, "auth"@, seeded@);
        }
        top.push(("auth".to_owned(), seeded));
        proof {
            lemma_entries_view(top@);
            assert(entries_view(top@) =~= topv.push(("auth"@, JsonVal::Object(
                seq![(provider_key(), provider_entry_val(token@))],
            ))));
        }
        Json::Object(top)
    } else {
        Json::Object(top)
    }
}


/// `serde_json::Value` is carried only through the trusted conversion
/// functions below; Verus sees it as an opaque type.
#[verifier::external_type_specification]
#[verifier::external_body]
pub struct ExValue(serde_json::Value);

/// What `serde_json::from_str` makes of a text, carried into this library's
/// document type: a function of the characters alone.
pub uninterp spec fn parse_of(s: Seq<char>) -> Option<JsonVal>;

/// What `serde_json::to_string_pretty` prints for a document: a function of
/// the document alone.
pub uninterp spec fn text_of(j: JsonVal) -> Seq<char>;

/// Relies on serde_json's `Value` enum: one arm per shape, moving contents
/// into this library's document type; number literals keep their printed
/// spelling. This is the recursive half of `parse_json`'s body, whose
/// contract is the one stated; nothing is promised here.
#[verifier::external_body]
fn value_to_json(v: &serde_json::Value) -> Json {
    match v {
        serde_json::Value::Null => Json::Null,
        serde_json::Value::Bool(b) => Json::Boolean(*b),
        serde_json::Value::Number(n) => Json::Number(n.to_string()),
        serde_json::Value::String(s) => Json::Text(s.clone()),
        serde_json::Value::Array(a) => Json::Array(a.iter().map(value_to_json).collect()),
        serde_json::Value::Object(m) => Json::Object(
            m.iter().map(|(k, x)| (k.clone(), value_to_json(x))).collect(),
        ),
    }
}

/// Relies on serde_json's `Value` enum and `Number::from_str`: one arm per
/// shape of this library's document type, rebuilding the outside value. This
/// is the recursive half of `to_json_text`'s body, whose contract is the one
/// stated; nothing is promised here.
#[verifier::external_body]
fn json_to_value(j: &Json) -> serde_json::Value {
    match j {
        Json::Null => serde_json::Value::Null,
        Json::Boolean(b) => serde_json::Value::Bool(*b),
        Json::Number(s) => match <serde_json::Number as core::str::FromStr>::from_str(s) {
            Ok(n) => serde_json::Value::Number(n),
            Err(_) => serde_json::Value::Null,
        },
        Json::Text(s) => serde_json::Value::String(s.clone()),
        Json::Array(a) => serde_json::Value::Array(a.iter().map(json_to_value).collect()),
        Json::Object(m) => serde_json::Value::Object(
            m.iter().map(|(k, x)| (k.clone(), json_to_value(x))).collect(),
        ),
    }
}

/// Relies on `serde_json::from_str::<Value>`: whether a text parses and what
/// it parses to depend on its characters alone.
#[verifier::external_body]
pub fn parse_json(s: &str) -> (r: Option<Json>)
    ensures
        match r {
            Some(j) => parse_of(s@) == Some(j@),
            None => parse_of(s@) is None,
        },
{
    match serde_json::from_str::<serde_json::Value>(s) {
        Ok(v) => Some(value_to_json(&v)),
        Err(_) => None,
    }
}

/// Relies on `serde_json::to_string_pretty` on a `Value`: the printed text is
/// a function of the document alone (it cannot fail for a plain `Value`).
#[verifier::external_body]
pub fn to_json_text(j: &Json) -> (r: String)
    ensures
        r@ == text_of(j@),
{
    let v = json_to_value(j);
    match serde_json::to_string_pretty(&v) {
        Ok(s) => s,
        Err(_) => String::new(),
    }
}

/// A text's document, with unreadable or unparsable text standing for an
/// empty object.
pub open spec fn parse_or_empty(s: Seq<char>) -> JsonVal {
    match parse_of(s) {
        Some(j) => j,
        None => JsonVal::Object(Seq::empty()),
    }
}

/// The text written over one credential file: parse what was there, merge the
/// provider entry in, print.
pub open spec fn rewritten_text(s: Seq<char>, token: Seq<char>, seed: bool) -> Seq<char> {
    text_of(merge_val(parse_or_empty(s), token, seed))
}

/// Rewrites one credential file's text.
pub fn rewrite_credential_text(existing: &String, token: &str, seed: bool) -> (r: String)
    ensures
        r@ == rewritten_text(existing@, token@, seed),
{
    let parsed = match parse_json(existing.as_str()) {
        Some(j) => j,
        None => Json::Object(Vec::new()),
    };
    proof {
        assert(entries_view(Seq::<(String, Json)>::empty())
            =~= Seq::<(Seq<char>, JsonVal)>::empty());
        assert(parsed@ == parse_or_empty(existing@));
    }
    let merged = merge_token(parsed, token, seed);
    to_json_text(&merged)
}

} // verus!



