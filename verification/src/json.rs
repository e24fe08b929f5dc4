//! A model of JSON documents as they travel between the router and the
//! coprocessor. Numbers are restricted to signed 64-bit integers; object
//! members keep their order, and a lookup returns the first member with a
//! matching key.
use vstd::prelude::*;

verus! {

/// A JSON value.
#[derive(Debug, PartialEq, Eq)]
pub enum Json {
    Null,
    Bool(bool),
    Num(i64),
    Str(String),
    Arr(Vec<Json>),
    Obj(Vec<(String, Json)>),
}

/// The mathematical shape of a [`Json`] value: strings become sequences of
/// characters.
#[verifier::ext_equal]
pub enum JsonV {
    Null,
    Bool(bool),
    Num(i64),
    Str(Seq<char>),
    Arr(Seq<JsonV>),
    Obj(Seq<(Seq<char>, JsonV)>),
}

pub open spec fn json_view(j: Json) -> JsonV
    decreases j,
{
    match j {
        Json::Null => JsonV::Null,
        Json::Bool(b) => JsonV::Bool(b),
        Json::Num(n) => JsonV::Num(n),
        Json::Str(s) => JsonV::Str(s@),
        Json::Arr(items) => JsonV::Arr(json_seq_view(items@)),
        Json::Obj(members) => JsonV::Obj(json_members_view(members@)),
    }
}

pub open spec fn json_seq_view(items: Seq<Json>) -> Seq<JsonV>
    decreases items,
{
    if items.len() == 0 {
        Seq::empty()
    } else {
        seq![json_view(items[0])] + json_seq_view(items.subrange(1, items.len() as int))
    }
}

pub open spec fn json_members_view(members: Seq<(String, Json)>) -> Seq<(Seq<char>, JsonV)>
    decreases members,
{
    if members.len() == 0 {
        Seq::empty()
    } else {
        seq![(members[0].0@, json_view(members[0].1))] + json_members_view(
            members.subrange(1, members.len() as int),
        )
    }
}

impl View for Json {
    type V = JsonV;

    open spec fn view(&self) -> JsonV {
        json_view(*self)
    }
}

pub proof fn lemma_json_seq_view(items: Seq<Json>)
    ensures
        json_seq_view(items).len() == items.len(),
        forall|i: int| 0 <= i < items.len() ==> json_seq_view(items)[i] == json_view(items[i]),
    decreases items,
{
    if items.len() > 0 {
        lemma_json_seq_view(items.subrange(1, items.len() as int));
    }
}

pub proof fn lemma_json_members_view(members: Seq<(String, Json)>)
    ensures
        json_members_view(members).len() == members.len(),
        forall|i: int|
            0 <= i < members.len() ==> json_members_view(members)[i] == (
            members[i].0@,
            json_view(members[i].1),
            ),
    decreases members,
{
    if members.len() > 0 {
        lemma_json_members_view(members.subrange(1, members.len() as int));
    }
}

impl Json {
    /// The boolean carried by this value, when it is a boolean.
    pub open spec fn spec_as_bool(&self) -> Option<bool> {
        match self {
            Json::Bool(b) => Some(*b),
            _ => None,
        }
    }

    /// The boolean carried by this value, when it is a boolean.
    pub fn as_bool(&self) -> (r: Option<bool>)
        ensures
            r == self.spec_as_bool(),
    {
        match self {
            Json::Bool(b) => Some(*b),
            _ => None,
        }
    }
}

pub proof fn lemma_json_seq_view_push(items: Seq<Json>, x: Json)
    ensures
        json_seq_view(items.push(x)) == json_seq_view(items).push(json_view(x)),
{
    lemma_json_seq_view(items.push(x));
    lemma_json_seq_view(items);
    assert(json_seq_view(items.push(x)) =~= json_seq_view(items).push(json_view(x)));
}

pub proof fn lemma_json_members_view_push(members: Seq<(String, Json)>, k: String, v: Json)
    ensures
        json_members_view(members.push((k, v))) == json_members_view(members).push(
            (k@, json_view(v)),
        ),
{
    lemma_json_members_view(members.push((k, v)));
    lemma_json_members_view(members);
    assert(json_members_view(members.push((k, v))) =~= json_members_view(members).push(
        (k@, json_view(v)),
    ));
}

impl Json {
    /// An owned copy whose mathematical shape equals this value's.
    pub fn deep_clone(&self) -> (r: Json)
        ensures
            r@ == self@,
        decreases *self,
    {
        match self {
            Json::Null => Json::Null,
            Json::Bool(b) => Json::Bool(*b),
            Json::Num(n) => Json::Num(*n),
            Json::Str(s) => Json::Str(s.clone()),
            Json::Arr(items) => {
                let n = items.len();
                let mut out: Vec<Json> = Vec::new();
                let mut i: usize = 0;
                proof {
                    assert(json_seq_view(out@) =~= json_seq_view(items@.subrange(0, 0)));
                    assert(decreases_to!(*self => self->Arr_0));
                }
                while i < n
                    invariant
                        n == items.len(),
                        0 <= i <= n,
                        decreases_to!(*self => *items),
                        json_seq_view(out@) == json_seq_view(items@.subrange(0, i as int)),
                    decreases n - i,
                {
                    proof {
                        assert(decreases_to!(*items => items@));
                        assert(decreases_to!(items@ => items@[i as int]));
                        assert(items@.subrange(0, i + 1) =~= items@.subrange(0, i as int).push(
                            items@[i as int],
                        ));
                        lemma_json_seq_view_push(items@.subrange(0, i as int), items@[i as int]);
                    }
                    let c = items[i].deep_clone();
                    proof {
                        lemma_json_seq_view_push_value(out@, c, items@[i as int]);
                    }
                    out.push(c);
                    i += 1;
                }
                proof {
                    assert(items@.subrange(0, n as int) =~= items@);
                }
                Json::Arr(out)
            },
            Json::Obj(members) => {
                let n = members.len();
                let mut out: Vec<(String, Json)> = Vec::new();
                let mut i: usize = 0;
                proof {
                    assert(json_members_view(out@) =~= json_members_view(members@.subrange(0, 0)));
                    assert(decreases_to!(*self => self->Obj_0));
                }
                while i < n
                    invariant
                        n == members.len(),
                        0 <= i <= n,
                        decreases_to!(*self => *members),
                        json_members_view(out@) == json_members_view(
                            members@.subrange(0, i as int),
                        ),
                    decreases n - i,
                {
                    proof {
                        assert(decreases_to!(*members => members@));
                        assert(decreases_to!(members@ => members@[i as int]));
                        assert(decreases_to!(members@[i as int] => members@[i as int].1));
                        assert(members@.subrange(0, i + 1) =~= members@.subrange(
                            0,
                            i as int,
                        ).push(members@[i as int]));
                        lemma_json_members_view_push(
                            members@.subrange(0, i as int),
                            members@[i as int].0,
                            members@[i as int].1,
                        );
                    }
                    let k = members[i].0.clone();
                    let v = members[i].1.deep_clone();
                    proof {
                        lemma_json_members_view_push(out@, k, v);
                        lemma_json_members_view_push(
                            members@.subrange(0, i as int),
                            members@[i as int].0,
                            members@[i as int].1,
                        );
                    }
                    out.push((k, v));
                    i += 1;
                }
                proof {
                    assert(members@.subrange(0, n as int) =~= members@);
                }
                Json::Obj(out)
            },
        }
    }
}

proof fn lemma_json_seq_view_push_value(items: Seq<Json>, c: Json, orig: Json)
    requires
        json_view(c) == json_view(orig),
    ensures
        json_seq_view(items.push(c)) == json_seq_view(items).push(json_view(orig)),
{
    lemma_json_seq_view_push(items, c);
}

/// Copies a list of JSON object members, preserving its mathematical shape.
pub fn clone_members(members: &Vec<(String, Json)>) -> (r: Vec<(String, Json)>)
    ensures
        json_members_view(r@) == json_members_view(members@),
{
    let n = members.len();
    let mut out: Vec<(String, Json)> = Vec::new();
    let mut i: usize = 0;
    proof {
        assert(json_members_view(out@) =~= json_members_view(members@.subrange(0, 0)));
    }
    while i < n
        invariant
            n == members.len(),
            0 <= i <= n,
            json_members_view(out@) == json_members_view(members@.subrange(0, i as int)),
        decreases n - i,
    {
        proof {
            assert(members@.subrange(0, i + 1) =~= members@.subrange(0, i as int).push(
                members@[i as int],
            ));
            lemma_json_members_view_push(
                members@.subrange(0, i as int),
                members@[i as int].0,
                members@[i as int].1,
            );
        }
        let k = members[i].0.clone();
        let v = members[i].1.deep_clone();
        proof {
            lemma_json_members_view_push(out@, k, v);
        }
        out.push((k, v));
        i += 1;
    }
    proof {
        assert(members@.subrange(0, n as int) =~= members@);
    }
    out
}

/// The first entry of `entries` whose key reads `name`, if any. Association
/// lists stand in for the maps of the wire formats; the first match wins.
pub open spec fn assoc_get<T>(entries: Seq<(String, T)>, name: Seq<char>) -> Option<T>
    decreases entries,
{
    if entries.len() == 0 {
        None
    } else if entries[0].0@ == name {
        Some(entries[0].1)
    } else {
        assoc_get(entries.subrange(1, entries.len() as int), name)
    }
}

/// Looks `name` up among `entries`, returning the first value under that key.
pub fn assoc_lookup<'a, T>(entries: &'a Vec<(String, T)>, name: &String) -> (r: Option<&'a T>)
    ensures
        match r {
            Some(v) => assoc_get(entries@, name@) == Some(*v),
            None => assoc_get(entries@, name@) is None,
        },
{
    let n = entries.len();
    let mut i: usize = 0;
    proof {
        assert(entries@.subrange(0, n as int) =~= entries@);
    }
    while i < n
        invariant
            n == entries.len(),
            0 <= i <= n,
            assoc_get(entries@, name@) == assoc_get(
                entries@.subrange(i as int, n as int),
                name@,
            ),
        decreases n - i,
    {
        if entries[i].0 == *name {
            proof {
                assert(entries@.subrange(i as int, n as int)[0] == entries@[i as int]);
            }
            return Some(&entries[i].1);
        }
        proof {
            assert(entries@.subrange(i as int, n as int).subrange(
                1,
                entries@.subrange(i as int, n as int).len() as int,
            ) =~= entries@.subrange(i + 1, n as int));
            assert(entries@.subrange(i as int, n as int)[0] == entries@[i as int]);
        }
        i += 1;
    }
    proof {
        assert(entries@.subrange(i as int, n as int) =~= Seq::<(String, T)>::empty());
    }
    None
}

} // verus!
