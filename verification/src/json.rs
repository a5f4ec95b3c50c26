use vstd::prelude::*;
use crate::text::{dec, dec_int, i64_text, str_eq, u64_text, views};

verus! {

#[derive(Debug)]
pub struct JsonNumber {
    pub text: String,
    pub as_i64: Option<i64>,
    pub as_u64: Option<u64>,
}

#[derive(Debug)]
pub enum Json {
    Null,
    Bool(bool),
    Number(JsonNumber),
    Str(String),
    Array(Vec<Json>),
    Object(Vec<(String, Json)>),
}

pub enum JsonV {
    Null,
    Bool(bool),
    Number(Seq<char>, Option<i64>, Option<u64>),
    Str(Seq<char>),
    Array(Seq<JsonV>),
    Object(Seq<(Seq<char>, JsonV)>),
}

pub open spec fn models(s: Seq<Json>) -> Seq<JsonV>
    decreases s,
{
    if s.len() == 0 {
        Seq::empty()
    } else {
        proof {
            assert(decreases_to!(s => s.subrange(0, s.len() - 1)));
            assert(decreases_to!(s => s[s.len() - 1]));
        }
        models(s.subrange(0, s.len() - 1)).push(s[s.len() - 1].model())
    }
}

pub open spec fn pair_models(s: Seq<(String, Json)>) -> Seq<(Seq<char>, JsonV)>
    decreases s,
{
    if s.len() == 0 {
        Seq::empty()
    } else {
        proof {
            assert(decreases_to!(s => s.subrange(0, s.len() - 1)));
            assert(decreases_to!(s => s[s.len() - 1]));
            assert(decreases_to!(s[s.len() - 1] => s[s.len() - 1].1));
        }
        pair_models(s.subrange(0, s.len() - 1)).push((s[s.len() - 1].0@, s[s.len() - 1].1.model()))
    }
}

impl Json {
    pub open spec fn model(&self) -> JsonV
        decreases self,
    {
        match self {
            Json::Null => JsonV::Null,
            Json::Bool(b) => JsonV::Bool(*b),
            Json::Number(n) => JsonV::Number(n.text@, n.as_i64, n.as_u64),
            Json::Str(s) => JsonV::Str(s@),
            Json::Array(items) => {
                proof {
                    assert(decreases_to!(self => *items));
                    assert(decreases_to!(*items => items@));
                }
                JsonV::Array(models(items@))
            },
            Json::Object(pairs) => {
                proof {
                    assert(decreases_to!(self => *pairs));
                    assert(decreases_to!(*pairs => pairs@));
                }
                JsonV::Object(pair_models(pairs@))
            },
        }
    }
}

impl View for Json {
    type V = JsonV;

    open spec fn view(&self) -> JsonV {
        self.model()
    }
}

pub proof fn lemma_models_push(s: Seq<Json>, x: Json)
    ensures
        models(s.push(x)) == models(s).push(x.model()),
{
    assert(s.push(x).subrange(0, s.len() as int) =~= s);
}

pub proof fn lemma_pair_models_push(s: Seq<(String, Json)>, x: (String, Json))
    ensures
        pair_models(s.push(x)) == pair_models(s).push((x.0@, x.1.model())),
{
    assert(s.push(x).subrange(0, s.len() as int) =~= s);
}

#[verifier::loop_isolation(false)]
pub fn deep_clone(v: &Json) -> (r: Json)
    ensures
        r@ == v@,
    decreases v,
{
    match v {
        Json::Null => Json::Null,
        Json::Bool(b) => Json::Bool(*b),
        Json::Number(n) => Json::Number(
            JsonNumber { text: n.text.clone(), as_i64: n.as_i64, as_u64: n.as_u64 },
        ),
        Json::Str(s) => Json::Str(s.clone()),
        Json::Array(items) => {
            let mut out: Vec<Json> = Vec::new();
            let mut i: usize = 0;
            while i < items.len()
                invariant
                    i <= items@.len(),
                    models(out@) == models(items@.subrange(0, i as int)),
                decreases items@.len() - i,
            {
                proof {
                    assert(decreases_to!(*v => (*v)->Array_0));
                    assert(decreases_to!((*v)->Array_0 => items@));
                    assert(decreases_to!(items@ => items@[i as int]));
                }
                let c = deep_clone(&items[i]);
                proof {
                    lemma_models_push(out@, c);
                    lemma_models_push(items@.subrange(0, i as int), items@[i as int]);
                    assert(items@.subrange(0, i as int).push(items@[i as int]) =~= items@.subrange(0, i + 1));
                }
                out.push(c);
                i = i + 1;
            }
            assert(items@.subrange(0, items@.len() as int) =~= items@);
            Json::Array(out)
        },
        Json::Object(pairs) => {
            let mut out: Vec<(String, Json)> = Vec::new();
            let mut i: usize = 0;
            while i < pairs.len()
                invariant
                    i <= pairs@.len(),
                    pair_models(out@) == pair_models(pairs@.subrange(0, i as int)),
                decreases pairs@.len() - i,
            {
                proof {
                    assert(decreases_to!(*v => (*v)->Object_0));
                    assert(decreases_to!((*v)->Object_0 => pairs@));
                    assert(decreases_to!(pairs@ => pairs@[i as int]));
                    assert(decreases_to!(pairs@[i as int] => pairs@[i as int].1));
                }
                let k = pairs[i].0.clone();
                let c = deep_clone(&pairs[i].1);
                proof {
                    lemma_pair_models_push(out@, (k, c));
                    lemma_pair_models_push(pairs@.subrange(0, i as int), pairs@[i as int]);
                    assert(pairs@.subrange(0, i as int).push(pairs@[i as int]) =~= pairs@.subrange(0, i + 1));
                }
                out.push((k, c));
                i = i + 1;
            }
            assert(pairs@.subrange(0, pairs@.len() as int) =~= pairs@);
            Json::Object(out)
        },
    }
}


pub proof fn lemma_models_index(s: Seq<Json>)
    ensures
        models(s).len() == s.len(),
        forall|i: int| 0 <= i < s.len() ==> #[trigger] models(s)[i] == s[i].model(),
    decreases s.len(),
{
    if s.len() > 0 {
        lemma_models_index(s.subrange(0, s.len() - 1));
    }
}

pub proof fn lemma_pair_models_index(s: Seq<(String, Json)>)
    ensures
        pair_models(s).len() == s.len(),
        forall|i: int|
            0 <= i < s.len() ==> #[trigger] pair_models(s)[i] == (s[i].0@, s[i].1.model()),
    decreases s.len(),
{
    if s.len() > 0 {
        lemma_pair_models_index(s.subrange(0, s.len() - 1));
    }
}

/// The value stored under the first pair whose key is `k`.
pub open spec fn obj_lookup<V>(pairs: Seq<(Seq<char>, V)>, k: Seq<char>) -> Option<V>
    decreases pairs.len(),
{
    if pairs.len() == 0 {
        None
    } else if pairs[0].0 == k {
        Some(pairs[0].1)
    } else {
        obj_lookup(pairs.drop_first(), k)
    }
}

pub proof fn lemma_lookup_skip<V>(pairs: Seq<(Seq<char>, V)>, k: Seq<char>, i: int)
    requires
        0 <= i <= pairs.len(),
        forall|j: int| 0 <= j < i ==> pairs[j].0 != k,
    ensures
        obj_lookup(pairs, k) == obj_lookup(pairs.subrange(i, pairs.len() as int), k),
    decreases i,
{
    if i == 0 {
        assert(pairs.subrange(0, pairs.len() as int) =~= pairs);
    } else {
        lemma_lookup_skip(pairs.drop_first(), k, i - 1);
        assert(pairs.drop_first().subrange(i - 1, pairs.len() - 1) =~= pairs.subrange(i, pairs.len() as int));
    }
}

impl JsonV {
    /// The member `k` of an object; `None` for other values.
    pub open spec fn get(self, k: Seq<char>) -> Option<JsonV> {
        match self {
            JsonV::Object(pairs) => obj_lookup(pairs, k),
            _ => None,
        }
    }

    /// Follows a path of object member names.
    pub open spec fn at(self, path: Seq<Seq<char>>) -> Option<JsonV>
        decreases path.len(),
    {
        if path.len() == 0 {
            Some(self)
        } else {
            match self.get(path[0]) {
                Some(v) => v.at(path.drop_first()),
                None => None,
            }
        }
    }

    pub open spec fn as_str(self) -> Option<Seq<char>> {
        match self {
            JsonV::Str(s) => Some(s),
            _ => None,
        }
    }

    pub open spec fn as_u64(self) -> Option<u64> {
        match self {
            JsonV::Number(_, _, u) => u,
            _ => None,
        }
    }

    pub open spec fn as_i64(self) -> Option<i64> {
        match self {
            JsonV::Number(_, i, _) => i,
            _ => None,
        }
    }
}

/// An unsigned integer as `json!(n)` holds it.
pub open spec fn dec_json_u64(n: u64) -> JsonV {
    JsonV::Number(dec(n as nat), if n <= i64::MAX { Some(n as i64) } else { None }, Some(n))
}

/// `Some(v)`'s inner value's `as_u64`, or `None`.
pub open spec fn opt_u64(o: Option<JsonV>) -> Option<u64> {
    match o {
        Some(v) => v.as_u64(),
        None => None,
    }
}

impl Json {
    /// Object member lookup (`Value::get` with a string key).
    pub fn get<'a>(&'a self, key: &str) -> (r: Option<&'a Json>)
        ensures
            match r {
                Some(x) => self@.get(key@) == Some(x@),
                None => self@.get(key@) is None,
            },
    {
        match self {
            Json::Object(pairs) => {
                proof {
                    lemma_pair_models_index(pairs@);
                }
                let mut i: usize = 0;
                while i < pairs.len()
                    invariant
                        i <= pairs@.len(),
                        pair_models(pairs@).len() == pairs@.len(),
                        forall|j: int| 0 <= j < pairs@.len() ==> #[trigger] pair_models(pairs@)[j] == (pairs@[j].0@, pairs@[j].1.model()),
                        forall|j: int| 0 <= j < i ==> pairs@[j].0@ != key@,
                        self@ == JsonV::Object(pair_models(pairs@)),
                    decreases pairs@.len() - i,
                {
                    if str_eq(pairs[i].0.as_str(), key) {
                        proof {
                            let m = pair_models(pairs@);
                            lemma_lookup_skip(m, key@, i as int);
                            assert(m.subrange(i as int, m.len() as int)[0] == m[i as int]);
                        }
                        return Some(&pairs[i].1);
                    }
                    i = i + 1;
                }
                proof {
                    let m = pair_models(pairs@);
                    lemma_lookup_skip(m, key@, m.len() as int);
                }
                None
            },
            _ => None,
        }
    }

    /// Follows a path of object member names (a JSON pointer whose tokens are
    /// all member names).
    pub fn at<'a>(&'a self, path: &[&str]) -> (r: Option<&'a Json>)
        ensures
            match r {
                Some(x) => self@.at(views(path@)) == Some(x@),
                None => self@.at(views(path@)) is None,
            },
    {
        let mut cur: &Json = self;
        let mut i: usize = 0;
        assert(views(path@).subrange(0, path@.len() as int) =~= views(path@));
        while i < path.len()
            invariant
                i <= path@.len(),
                self@.at(views(path@)) == cur@.at(views(path@).subrange(i as int, path@.len() as int)),
            decreases path@.len() - i,
        {
            let ghost rest = views(path@).subrange(i as int, path@.len() as int);
            assert(rest[0] == path@[i as int]@);
            assert(rest.drop_first() =~= views(path@).subrange(i + 1, path@.len() as int));
            match cur.get(path[i]) {
                Some(next) => {
                    cur = next;
                },
                None => {
                    return None;
                },
            }
            i = i + 1;
        }
        assert(views(path@).subrange(path@.len() as int, path@.len() as int) =~= Seq::<Seq<char>>::empty());
        Some(cur)
    }

    pub fn as_str(&self) -> (r: Option<&str>)
        ensures
            match r {
                Some(s) => self@.as_str() == Some(s@),
                None => self@.as_str() is None,
            },
    {
        match self {
            Json::Str(s) => Some(s.as_str()),
            _ => None,
        }
    }

    pub fn as_u64(&self) -> (r: Option<u64>)
        ensures
            r == self@.as_u64(),
    {
        match self {
            Json::Number(n) => n.as_u64,
            _ => None,
        }
    }

    pub fn as_i64(&self) -> (r: Option<i64>)
        ensures
            r == self@.as_i64(),
    {
        match self {
            Json::Number(n) => n.as_i64,
            _ => None,
        }
    }

    /// A number holding an unsigned integer, as `json!(n)` makes it.
    pub fn from_u64(n: u64) -> (r: Json)
        ensures
            r@ == dec_json_u64(n),
    {
        let text = u64_text(n);
        let as_i64 = if n <= i64::MAX as u64 { Some(n as i64) } else { None };
        Json::Number(JsonNumber { text, as_i64, as_u64: Some(n) })
    }

    /// `Some(n)` as a number, `None` as `null`.
    pub fn from_opt_u64(n: Option<u64>) -> (r: Json)
        ensures
            r@ == match n {
                Some(x) => JsonV::Number(dec(x as nat), if x <= i64::MAX { Some(x as i64) } else { None }, Some(x)),
                None => JsonV::Null,
            },
    {
        match n {
            Some(x) => Json::from_u64(x),
            None => Json::Null,
        }
    }

    /// A number holding a signed integer, as `json!(n)` makes it.
    pub fn from_i64(n: i64) -> (r: Json)
        ensures
            r@ == JsonV::Number(dec_int(n as int), Some(n), if n >= 0 { Some(n as u64) } else { None }),
    {
        let text = i64_text(n);
        let as_u64 = if n >= 0 { Some(n as u64) } else { None };
        Json::Number(JsonNumber { text, as_i64: Some(n), as_u64 })
    }

    /// A string value.
    pub fn string(s: &str) -> (r: Json)
        ensures
            r@ == JsonV::Str(s@),
    {
        Json::Str(s.to_owned())
    }

    /// The empty array.
    pub fn empty_array() -> (r: Json)
        ensures
            r@ == JsonV::Array(Seq::empty()),
    {
        Json::Array(Vec::new())
    }
}

} // verus!
