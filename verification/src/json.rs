//! The JSON-like wire form that components are written to and read from:
//! a value tree of nulls, booleans, unsigned integers, strings, arrays and
//! key-ordered objects, with a ghost mirror for specification.

use vstd::prelude::*;
use crate::text::str_eq;

verus! {

/// A wire value. Objects keep their fields in writing order; numbers on
/// this wire are unsigned integers.
#[derive(Debug)]
pub enum Json {
    Null,
    Bool(bool),
    UInt(u64),
    Str(String),
    Arr(Vec<Json>),
    Obj(Vec<(String, Json)>),
}

/// The abstract value of a wire value.
pub ghost enum JsonV {
    Null,
    Bool(bool),
    UInt(u64),
    Str(Seq<char>),
    Arr(Seq<JsonV>),
    Obj(Seq<(Seq<char>, JsonV)>),
}

/// The abstract value of a `Json` tree.
pub open spec fn jview(j: Json) -> JsonV
    decreases j,
{
    match j {
        Json::Null => JsonV::Null,
        Json::Bool(b) => JsonV::Bool(b),
        Json::UInt(n) => JsonV::UInt(n),
        Json::Str(s) => JsonV::Str(s@),
        Json::Arr(elems) => JsonV::Arr(jview_seq(elems@)),
        Json::Obj(pairs) => JsonV::Obj(jview_pairs(pairs@)),
    }
}

pub open spec fn jview_seq(s: Seq<Json>) -> Seq<JsonV>
    decreases s,
{
    if s.len() == 0 {
        Seq::empty()
    } else {
        seq![jview(s[0])] + jview_seq(s.drop_first())
    }
}

pub open spec fn jview_pairs(s: Seq<(String, Json)>) -> Seq<(Seq<char>, JsonV)>
    decreases s,
{
    if s.len() == 0 {
        Seq::empty()
    } else {
        seq![(s[0].0@, jview(s[0].1))] + jview_pairs(s.drop_first())
    }
}

impl View for Json {
    type V = JsonV;

    open spec fn view(&self) -> JsonV {
        jview(*self)
    }
}

/// `jview_seq` maps the view over the elements.
pub proof fn lemma_jview_seq(s: Seq<Json>)
    ensures
        jview_seq(s).len() == s.len(),
        forall|i: int| 0 <= i < s.len() ==> jview_seq(s)[i] == jview(#[trigger] s[i]),
    decreases s.len(),
{
    if s.len() > 0 {
        lemma_jview_seq(s.drop_first());
        assert forall|i: int| 0 <= i < s.len() implies jview_seq(s)[i] == jview(
            #[trigger] s[i],
        ) by {
            if i > 0 {
                assert(s.drop_first()[i - 1] == s[i]);
                assert(jview_seq(s)[i] == jview_seq(s.drop_first())[i - 1]);
            }
        }
    }
}

/// `jview_pairs` maps the view over keys and values.
pub proof fn lemma_jview_pairs(s: Seq<(String, Json)>)
    ensures
        jview_pairs(s).len() == s.len(),
        forall|i: int| 0 <= i < s.len() ==> jview_pairs(s)[i] == ((#[trigger] s[i]).0@, jview(
            s[i].1,
        )),
    decreases s.len(),
{
    if s.len() > 0 {
        lemma_jview_pairs(s.drop_first());
        assert forall|i: int| 0 <= i < s.len() implies jview_pairs(s)[i] == ((#[trigger] s[i]).0@,
        jview(s[i].1)) by {
            if i > 0 {
                assert(s.drop_first()[i - 1] == s[i]);
                assert(jview_pairs(s)[i] == jview_pairs(s.drop_first())[i - 1]);
            }
        }
    }
}

/// The value under the first occurrence of key `k`, if any.
pub open spec fn obj_lookup(pairs: Seq<(Seq<char>, JsonV)>, k: Seq<char>) -> Option<JsonV>
    decreases pairs.len(),
{
    if pairs.len() == 0 {
        None
    } else if pairs[0].0 == k {
        Some(pairs[0].1)
    } else {
        obj_lookup(pairs.drop_first(), k)
    }
}

/// Looking up in a concatenation: the left part is searched first.
pub proof fn lemma_lookup_append(p1: Seq<(Seq<char>, JsonV)>, p2: Seq<(Seq<char>, JsonV)>, k: Seq<char>)
    ensures
        obj_lookup(p1 + p2, k) == (match obj_lookup(p1, k) {
            Some(v) => Some(v),
            None => obj_lookup(p2, k),
        }),
    decreases p1.len(),
{
    if p1.len() == 0 {
        assert(p1 + p2 =~= p2);
    } else {
        lemma_lookup_append(p1.drop_first(), p2, k);
        assert((p1 + p2).drop_first() =~= p1.drop_first() + p2);
        assert((p1 + p2)[0] == p1[0]);
    }
}

/// Looking up in a one-field object part.
pub proof fn lemma_lookup_single(k: Seq<char>, v: JsonV, k2: Seq<char>)
    ensures
        obj_lookup(seq![(k, v)], k2) == (if k2 == k {
            Some(v)
        } else {
            None::<JsonV>
        }),
{
    reveal_with_fuel(obj_lookup, 2);
    assert(seq![(k, v)].drop_first() =~= Seq::<(Seq<char>, JsonV)>::empty());
}

/// A key that no field bears finds nothing.
pub proof fn lemma_lookup_none(ps: Seq<(Seq<char>, JsonV)>, k: Seq<char>)
    requires
        forall|j: int| 0 <= j < ps.len() ==> (#[trigger] ps[j]).0 != k,
    ensures
        obj_lookup(ps, k) is None,
    decreases ps.len(),
{
    if ps.len() > 0 {
        assert forall|j: int| 0 <= j < ps.drop_first().len() implies (#[trigger] ps.drop_first()[j]).0
            != k by {
            assert(ps.drop_first()[j] == ps[j + 1]);
        }
        lemma_lookup_none(ps.drop_first(), k);
    }
}

/// What a lookup finds sits structurally below the field sequence.
pub proof fn lemma_lookup_smaller(ps: Seq<(Seq<char>, JsonV)>, k: Seq<char>)
    requires
        obj_lookup(ps, k) is Some,
    ensures
        decreases_to!(ps => obj_lookup(ps, k)->Some_0),
    decreases ps.len(),
{
    if ps.len() > 0 {
        if ps[0].0 == k {
            assert(decreases_to!(ps => ps[0]));
            assert(decreases_to!(ps[0] => ps[0].1));
        } else {
            lemma_lookup_smaller(ps.drop_first(), k);
            assert(ps.drop_first() == ps.subrange(1, ps.len() as int));
            assert(decreases_to!(ps => ps.subrange(1, ps.len() as int)));
        }
    }
}

/// The first field bearing `k` decides the lookup.
pub proof fn lemma_lookup_first(ps: Seq<(Seq<char>, JsonV)>, k: Seq<char>, i: int)
    requires
        0 <= i < ps.len(),
        ps[i].0 == k,
        forall|j: int| 0 <= j < i ==> (#[trigger] ps[j]).0 != k,
    ensures
        obj_lookup(ps, k) == Some(ps[i].1),
    decreases ps.len(),
{
    if i > 0 {
        assert(ps.drop_first()[i - 1] == ps[i]);
        assert forall|j: int| 0 <= j < i - 1 implies (#[trigger] ps.drop_first()[j]).0 != k by {
            assert(ps.drop_first()[j] == ps[j + 1]);
        }
        lemma_lookup_first(ps.drop_first(), k, i - 1);
    }
}

/// Peeling the last field off `jview_pairs`.
pub proof fn lemma_jview_pairs_last(s: Seq<(String, Json)>)
    requires
        s.len() > 0,
    ensures
        jview_pairs(s) == jview_pairs(s.drop_last()) + seq![(s.last().0@, jview(s.last().1))],
{
    lemma_jview_pairs(s);
    lemma_jview_pairs(s.drop_last());
    assert forall|i: int| 0 <= i < s.len() implies jview_pairs(s)[i] == (jview_pairs(s.drop_last())
        + seq![(s.last().0@, jview(s.last().1))])[i] by {
        if i < s.len() - 1 {
            assert(s.drop_last()[i] == s[i]);
        }
    }
    assert(jview_pairs(s) =~= jview_pairs(s.drop_last()) + seq![(s.last().0@, jview(s.last().1))]);
}

impl Clone for Json {
    /// A deep copy with the same abstract value.
    fn clone(&self) -> (r: Self)
        ensures
            r@ == self@,
    {
        json_clone(self)
    }
}

/// Deeply copies a wire value.
fn json_clone(j: &Json) -> (r: Json)
    ensures
        jview(r) == jview(*j),
    decreases *j,
{
    match j {
        Json::Null => Json::Null,
        Json::Bool(b) => Json::Bool(*b),
        Json::UInt(n) => Json::UInt(*n),
        Json::Str(s) => Json::Str(s.clone()),
        Json::Arr(elems) => {
            let mut out: Vec<Json> = Vec::new();
            let n = elems.len();
            let mut i: usize = 0;
            while i < n
                invariant
                    i <= n,
                    n == elems@.len(),
                    out@.len() == i,
                    forall|k: int| 0 <= k < i ==> jview(#[trigger] out@[k]) == jview(elems@[k]),
                    *j == Json::Arr(*elems),
                decreases n - i,
            {
                proof {
                    assert(decreases_to!(*j => elems@[i as int])) by {
                        assert(decreases_to!(*j => j->Arr_0));
                        assert(j->Arr_0 == *elems);
                        assert(decreases_to!(*elems => elems@));
                        assert(decreases_to!(elems@ => elems@[i as int]));
                    }
                }
                let c = json_clone(&elems[i]);
                out.push(c);
                i = i + 1;
            }
            proof {
                lemma_jview_seq(out@);
                lemma_jview_seq(elems@);
                assert forall|k: int| 0 <= k < n implies jview_seq(out@)[k] == jview_seq(elems@)[k] by {
                    assert(jview(out@[k]) == jview(elems@[k]));
                }
                assert(jview_seq(out@) =~= jview_seq(elems@));
            }
            Json::Arr(out)
        },
        Json::Obj(pairs) => {
            let mut out: Vec<(String, Json)> = Vec::new();
            let n = pairs.len();
            let mut i: usize = 0;
            while i < n
                invariant
                    i <= n,
                    n == pairs@.len(),
                    out@.len() == i,
                    forall|k: int| 0 <= k < i ==> (#[trigger] out@[k]).0@ == pairs@[k].0@ && jview(
                        out@[k].1,
                    ) == jview(pairs@[k].1),
                    *j == Json::Obj(*pairs),
                decreases n - i,
            {
                proof {
                    assert(decreases_to!(*j => pairs@[i as int].1)) by {
                        assert(decreases_to!(*j => j->Obj_0));
                        assert(j->Obj_0 == *pairs);
                        assert(decreases_to!(*pairs => pairs@));
                        assert(decreases_to!(pairs@ => pairs@[i as int]));
                        assert(decreases_to!(pairs@[i as int] => pairs@[i as int].1));
                    }
                }
                let key = pairs[i].0.clone();
                let val = json_clone(&pairs[i].1);
                out.push((key, val));
                i = i + 1;
            }
            proof {
                lemma_jview_pairs(out@);
                lemma_jview_pairs(pairs@);
                assert forall|k: int| 0 <= k < n implies jview_pairs(out@)[k] == jview_pairs(
                    pairs@,
                )[k] by {
                    assert(out@[k].0@ == pairs@[k].0@ && jview(out@[k].1) == jview(pairs@[k].1));
                }
                assert(jview_pairs(out@) =~= jview_pairs(pairs@));
            }
            Json::Obj(out)
        },
    }
}

/// Finds the value under the first occurrence of key `k`, if any.
pub fn obj_get<'a>(pairs: &'a Vec<(String, Json)>, k: &str) -> (r: Option<&'a Json>)
    ensures
        match r {
            Some(j) => obj_lookup(jview_pairs(pairs@), k@) == Some(jview(*j)),
            None => obj_lookup(jview_pairs(pairs@), k@) is None,
        },
        r matches Some(x) ==> (exists|i: int|
            0 <= i < pairs@.len() && *x == (#[trigger] pairs@[i]).1),
{
    proof {
        lemma_jview_pairs(pairs@);
    }
    let n = pairs.len();
    let mut i: usize = 0;
    while i < n
        invariant
            i <= n,
            n == pairs@.len(),
            forall|j: int| 0 <= j < i ==> (#[trigger] pairs@[j]).0@ != k@,
        decreases n - i,
    {
        if str_eq(pairs[i].0.as_str(), k) {
            proof {
                lemma_jview_pairs(pairs@);
                assert forall|j: int| 0 <= j < i implies (#[trigger] jview_pairs(pairs@)[j]).0
                    != k@ by {
                    assert(jview_pairs(pairs@)[j] == (pairs@[j].0@, jview(pairs@[j].1)));
                }
                assert(jview_pairs(pairs@)[i as int] == (pairs@[i as int].0@, jview(
                    pairs@[i as int].1,
                )));
                lemma_lookup_first(jview_pairs(pairs@), k@, i as int);
            }
            return Some(&pairs[i].1);
        }
        i = i + 1;
    }
    proof {
        lemma_jview_pairs(pairs@);
        assert forall|j: int| 0 <= j < n implies (#[trigger] jview_pairs(pairs@)[j]).0 != k@ by {
            assert(jview_pairs(pairs@)[j] == (pairs@[j].0@, jview(pairs@[j].1)));
        }
        lemma_lookup_none(jview_pairs(pairs@), k@);
    }
    None
}

/// Deep equality of wire values.
pub fn json_equal(a: &Json, b: &Json) -> (r: bool)
    ensures
        r == (a@ == b@),
    decreases *a,
{
    match (a, b) {
        (Json::Null, Json::Null) => true,
        (Json::Bool(x), Json::Bool(y)) => *x == *y,
        (Json::UInt(x), Json::UInt(y)) => *x == *y,
        (Json::Str(x), Json::Str(y)) => crate::text::str_eq(x.as_str(), y.as_str()),
        (Json::Arr(e1), Json::Arr(e2)) => {
            proof {
                lemma_jview_seq(e1@);
                lemma_jview_seq(e2@);
            }
            if e1.len() != e2.len() {
                return false;
            }
            let n = e1.len();
            let mut i: usize = 0;
            while i < n
                invariant
                    i <= n,
                    n == e1@.len(),
                    n == e2@.len(),
                    jview_seq(e1@).len() == n,
                    jview_seq(e2@).len() == n,
                    forall|k: int| 0 <= k < n ==> jview_seq(e1@)[k] == jview(#[trigger] e1@[k]),
                    forall|k: int| 0 <= k < n ==> jview_seq(e2@)[k] == jview(#[trigger] e2@[k]),
                    forall|k: int| 0 <= k < i ==> jview(#[trigger] e1@[k]) == jview(e2@[k]),
                    *a == Json::Arr(*e1),
                    *b == Json::Arr(*e2),
                decreases n - i,
            {
                proof {
                    assert(decreases_to!(*a => e1@[i as int])) by {
                        assert(decreases_to!(*a => a->Arr_0));
                        assert(a->Arr_0 == *e1);
                        assert(decreases_to!(*e1 => e1@));
                        assert(decreases_to!(e1@ => e1@[i as int]));
                    }
                }
                if !json_equal(&e1[i], &e2[i]) {
                    proof {
                        assert(jview_seq(e1@)[i as int] != jview_seq(e2@)[i as int]);
                    }
                    return false;
                }
                i = i + 1;
            }
            proof {
                assert forall|k: int| 0 <= k < n implies jview_seq(e1@)[k] == jview_seq(
                    e2@,
                )[k] by {
                    assert(jview(e1@[k]) == jview(e2@[k]));
                }
                assert(jview_seq(e1@) =~= jview_seq(e2@));
            }
            true
        },
        (Json::Obj(p1), Json::Obj(p2)) => {
            proof {
                lemma_jview_pairs(p1@);
                lemma_jview_pairs(p2@);
            }
            if p1.len() != p2.len() {
                return false;
            }
            let n = p1.len();
            let mut i: usize = 0;
            while i < n
                invariant
                    i <= n,
                    n == p1@.len(),
                    n == p2@.len(),
                    jview_pairs(p1@).len() == n,
                    jview_pairs(p2@).len() == n,
                    forall|k: int| 0 <= k < n ==> jview_pairs(p1@)[k] == ((#[trigger] p1@[k]).0@,
                    jview(p1@[k].1)),
                    forall|k: int| 0 <= k < n ==> jview_pairs(p2@)[k] == ((#[trigger] p2@[k]).0@,
                    jview(p2@[k].1)),
                    forall|k: int| 0 <= k < i ==> (#[trigger] p1@[k]).0@ == p2@[k].0@ && jview(
                        p1@[k].1,
                    ) == jview(p2@[k].1),
                    *a == Json::Obj(*p1),
                    *b == Json::Obj(*p2),
                decreases n - i,
            {
                if !crate::text::str_eq(p1[i].0.as_str(), p2[i].0.as_str()) {
                    proof {
                        assert(jview_pairs(p1@)[i as int] != jview_pairs(p2@)[i as int]);
                    }
                    return false;
                }
                proof {
                    assert(decreases_to!(*a => p1@[i as int].1)) by {
                        assert(decreases_to!(*a => a->Obj_0));
                        assert(a->Obj_0 == *p1);
                        assert(decreases_to!(*p1 => p1@));
                        assert(decreases_to!(p1@ => p1@[i as int]));
                        assert(decreases_to!(p1@[i as int] => p1@[i as int].1));
                    }
                }
                if !json_equal(&p1[i].1, &p2[i].1) {
                    proof {
                        assert(jview_pairs(p1@)[i as int] != jview_pairs(p2@)[i as int]);
                    }
                    return false;
                }
                i = i + 1;
            }
            proof {
                assert forall|k: int| 0 <= k < n implies jview_pairs(p1@)[k] == jview_pairs(
                    p2@,
                )[k] by {
                    assert(p1@[k].0@ == p2@[k].0@ && jview(p1@[k].1) == jview(p2@[k].1));
                }
                assert(jview_pairs(p1@) =~= jview_pairs(p2@));
            }
            true
        },
        _ => {
            proof {
                assert(match *a {
                    Json::Null => a@ is Null,
                    Json::Bool(_) => a@ is Bool,
                    Json::UInt(_) => a@ is UInt,
                    Json::Str(_) => a@ is Str,
                    Json::Arr(_) => a@ is Arr,
                    Json::Obj(_) => a@ is Obj,
                });
                assert(match *b {
                    Json::Null => b@ is Null,
                    Json::Bool(_) => b@ is Bool,
                    Json::UInt(_) => b@ is UInt,
                    Json::Str(_) => b@ is Str,
                    Json::Arr(_) => b@ is Arr,
                    Json::Obj(_) => b@ is Obj,
                });
            }
            false
        },
    }
}

} // verus!
