//! A minimal JSON value model: the data the router inspects and rewrites.
//!
//! Values arriving from the wire are converted into this shape at the
//! process edge. The routing logic only ever reads strings, integers,
//! booleans, arrays and objects; a number outside the integers is
//! carried as its decimal text so that forwarded bodies stay intact.
//! Object fields keep their order; lookup is by first matching key.

use vstd::prelude::*;

verus! {

#[derive(Debug, PartialEq)]
pub enum Json {
    Null,
    Bool(bool),
    Int(i64),
    /// A number beyond the integers the router reads, kept as its
    /// decimal text: carried through verbatim, never interpreted.
    Num(String),
    Str(String),
    Arr(Vec<Json>),
    Obj(Vec<(String, Json)>),
}

/// First value bound to `key` among `fields`, if any.
pub open spec fn spec_fields_get(fields: Seq<(String, Json)>, key: Seq<char>) -> Option<Json>
    decreases fields.len(),
{
    if fields.len() == 0 {
        Option::None
    } else if fields[0].0@ == key {
        Option::Some(fields[0].1)
    } else {
        spec_fields_get(fields.skip(1), key)
    }
}

/// Field lookup on an object; `None` on any other shape.
pub open spec fn spec_get(j: Json, key: Seq<char>) -> Option<Json> {
    match j {
        Json::Obj(fields) => spec_fields_get(fields@, key),
        _ => Option::None,
    }
}

/// The string content of a value, if it is a string.
pub open spec fn spec_as_str(j: Option<Json>) -> Option<Seq<char>> {
    match j {
        Option::Some(Json::Str(s)) => Option::Some(s@),
        _ => Option::None,
    }
}

/// The integer content of a value, if it is an integer.
pub open spec fn spec_as_int(j: Option<Json>) -> Option<i64> {
    match j {
        Option::Some(Json::Int(i)) => Option::Some(i),
        _ => Option::None,
    }
}

/// Character-by-character string equality, proved against the views.
pub fn str_eq(a: &str, b: &str) -> (r: bool)
    ensures
        r <==> a@ == b@,
{
    let n = a.unicode_len();
    let m = b.unicode_len();
    if n != m {
        proof {
            assert(a@.len() != b@.len());
        }
        return false;
    }
    let mut i: usize = 0;
    while i < n
        invariant
            i <= n,
            n == a@.len(),
            n == b@.len(),
            forall|k: int| 0 <= k < i ==> a@[k] == b@[k],
        decreases n - i,
    {
        if a.get_char(i) != b.get_char(i) {
            return false;
        }
        i = i + 1;
    }
    proof {
        assert(a@ =~= b@);
    }
    true
}

/// Index of the first field named `key`; the length when there is none.
pub open spec fn spec_first_idx(fields: Seq<(String, Json)>, key: Seq<char>) -> int
    decreases fields.len(),
{
    if fields.len() == 0 {
        0
    } else if fields[0].0@ == key {
        0
    } else {
        1 + spec_first_idx(fields.skip(1), key)
    }
}

/// `newf` is `oldf` with the first `key` binding's value replaced by
/// `val`: keys and every other value are kept in place.
pub open spec fn spec_replaced(
    oldf: Seq<(String, Json)>,
    newf: Seq<(String, Json)>,
    key: Seq<char>,
    val: Json,
) -> bool {
    &&& newf.len() == oldf.len()
    &&& forall|i: int| 0 <= i < oldf.len() ==> (#[trigger] newf[i]).0 == oldf[i].0
    &&& forall|i: int|
        0 <= i < oldf.len() && i != spec_first_idx(oldf, key) ==> (#[trigger] newf[i]).1
            == oldf[i].1
    &&& (spec_fields_get(oldf, key) is Some ==> newf[spec_first_idx(oldf, key)].1 == val)
}

/// The first match the scan finds is the one the spec names.
pub(crate) proof fn lemma_first_idx(fields: Seq<(String, Json)>, key: Seq<char>, w: int)
    requires
        0 <= w < fields.len(),
        fields[w].0@ == key,
        forall|k: int| 0 <= k < w ==> (#[trigger] fields[k]).0@ != key,
    ensures
        spec_first_idx(fields, key) == w,
        spec_fields_get(fields, key) == Option::Some(fields[w].1),
    decreases w,
{
    if w == 0 {
    } else {
        assert(fields.skip(1)[w - 1] == fields[w]);
        assert forall|k: int| 0 <= k < w - 1 implies (#[trigger] fields.skip(1)[k]).0@ != key by {
            assert(fields.skip(1)[k] == fields[k + 1]);
        }
        lemma_first_idx(fields.skip(1), key, w - 1);
    }
}

impl Json {
    /// Borrowing lookup of a field of an object.
    #[verifier::loop_isolation(false)]
    pub fn get<'a>(&'a self, key: &str) -> (r: Option<&'a Json>)
        ensures
            match r {
                Option::Some(v) => spec_get(*self, key@) == Option::Some(*v),
                Option::None => spec_get(*self, key@) is None,
            },
    {
        match self {
            Json::Obj(fields) => {
                let n = fields.len();
                proof {
                    assert(fields@.skip(0) =~= fields@);
                }
                let mut i: usize = 0;
                while i < n
                    invariant
                        i <= n,
                        n == fields.len(),
                        spec_fields_get(fields@, key@) == spec_fields_get(fields@.skip(i as int), key@),
                    decreases n - i,
                {
                    proof {
                        assert(fields@.skip(i as int)[0] == fields@[i as int]);
                        assert(fields@.skip(i as int).skip(1) =~= fields@.skip(i + 1));
                    }
                    if str_eq(fields[i].0.as_str(), key) {
                        proof {
                            assert(spec_fields_get(fields@.skip(i as int), key@)
                                == Option::Some(fields@[i as int].1));
                        }
                        return Some(&fields[i].1);
                    }
                    i = i + 1;
                }
                proof {
                    assert(fields@.skip(n as int).len() == 0);
                }
                None
            },
            _ => None,
        }
    }

    /// Replace the value of an existing field, in place.
    #[verifier::loop_isolation(false)]
    pub fn set_field(&mut self, key: &str, val: Json)
        requires
            *old(self) is Obj,
            spec_get(*old(self), key@) is Some,
        ensures
            *final(self) is Obj,
            (*old(self) matches Json::Obj(oldf) ==> *final(self) matches Json::Obj(newf)
                && spec_replaced(oldf@, newf@, key@, val)),
    {
        match self {
            Json::Obj(fields) => {
                let n = fields.len();
                let mut i: usize = 0;
                let ghost oldf = fields@;
                while i < n
                    invariant
                        i <= n,
                        fields@ == oldf,
                        n == fields@.len(),
                        forall|k: int| 0 <= k < i ==> (#[trigger] fields@[k]).0@ != key@,
                    decreases n - i,
                {
                    if str_eq(fields[i].0.as_str(), key) {
                        proof {
                            lemma_first_idx(oldf, key@, i as int);
                        }
                        let pair = fields.remove(i);
                        fields.insert(i, (pair.0, val));
                        proof {
                            assert(fields@ =~= oldf.update(i as int, fields@[i as int]));
                        }
                        return ;
                    }
                    i = i + 1;
                }
                proof {
                    assert(fields@.skip(0) =~= fields@);
                    lemma_fields_get_none(fields@, key@);
                    assert(false);
                }
            },
            _ => {
                proof {
                    assert(false);
                }
            },
        }
    }
}

impl Clone for Json {
    /// A deep copy; nothing is claimed of it, values that proofs care
    /// about are moved rather than cloned.
    #[verifier::loop_isolation(false)]
    fn clone(&self) -> (r: Json)
        decreases *self,
    {
        match self {
            Json::Null => Json::Null,
            Json::Bool(b) => Json::Bool(*b),
            Json::Int(i) => Json::Int(*i),
            Json::Num(s) => Json::Num(s.clone()),
            Json::Str(s) => Json::Str(s.clone()),
            Json::Arr(items) => {
                let mut out: Vec<Json> = Vec::new();
                let n = items.len();
                let mut i: usize = 0;
                while i < n
                    invariant
                        i <= n,
                    decreases n - i,
                {
                    proof {
                        assert(decreases_to!(*self => *items));
                        assert(decreases_to!(*items => items@));
                        assert(decreases_to!(items@ => items@[i as int]));
                    }
                    out.push(items[i].clone());
                    i = i + 1;
                }
                Json::Arr(out)
            },
            Json::Obj(fields) => {
                let mut out: Vec<(String, Json)> = Vec::new();
                let n = fields.len();
                let mut i: usize = 0;
                while i < n
                    invariant
                        i <= n,
                    decreases n - i,
                {
                    proof {
                        assert(decreases_to!(*self => *fields));
                        assert(decreases_to!(*fields => fields@));
                        assert(decreases_to!(fields@ => fields@[i as int]));
                        assert(decreases_to!(fields@[i as int] => fields@[i as int].1));
                    }
                    let key = fields[i].0.clone();
                    let val = fields[i].1.clone();
                    out.push((key, val));
                    i = i + 1;
                }
                Json::Obj(out)
            },
        }
    }
}

/// A scan that matches nothing means the spec lookup finds nothing.
pub(crate) proof fn lemma_fields_get_none(fields: Seq<(String, Json)>, key: Seq<char>)
    requires
        forall|k: int| 0 <= k < fields.len() ==> (#[trigger] fields[k]).0@ != key,
    ensures
        spec_fields_get(fields, key) is None,
    decreases fields.len(),
{
    if fields.len() > 0 {
        assert forall|k: int|
            0 <= k < fields.skip(1).len() implies (#[trigger] fields.skip(1)[k]).0@ != key by {
            assert(fields.skip(1)[k] == fields[k + 1]);
        }
        lemma_fields_get_none(fields.skip(1), key);
    }
}

} // verus!
