//! Response shaping: the three normalized shapes, `--fields` projection, and rendering.
use vstd::prelude::*;
use crate::error::{Error, ErrorKind, Result};
use crate::json::{Json, JsonV};
use crate::json::{models, obj_lookup, pair_models, lemma_models_index, lemma_pair_models_index, lemma_models_push, lemma_pair_models_push, deep_clone};
use crate::text::{cat2, cat4, cat5, dec, u64_text, set_put, set_insert, join, join_strings, str_in, views, chars_of, split_chars, has_at_pos, lemma_pos_of_bound, pos_of, put, split_seq, str_eq, str_lt, string_views};
use crate::tty::Format;
pub use crate::render::{humanise_value, md_cell, render, truncate};

verus! {

#[derive(Debug, Clone, Copy, PartialEq, Eq, Structural)]
pub enum Shape {
    List,
    SingleFlat,
    SingleNested,
}

impl Shape {
    pub open spec fn name(self) -> Seq<char> {
        match self {
            Shape::List => "list"@,
            Shape::SingleFlat => "single-flat"@,
            Shape::SingleNested => "single-nested"@,
        }
    }

    pub fn as_str(self) -> (r: &'static str)
        ensures
            r@ == self.name(),
    {
        match self {
            Shape::List => "list",
            Shape::SingleFlat => "single-flat",
            Shape::SingleNested => "single-nested",
        }
    }
}

/// A response in one of the three shapes, with its pagination metadata.
#[derive(Debug)]
pub struct Renderable {
    pub shape: Shape,
    pub body: Json,
    pub paginated: bool,
    pub limit: Option<u32>,
    pub offset: Option<u32>,
    pub total: Option<u64>,
}

impl Renderable {
    pub fn list(items: Json, paginated: bool, limit: Option<u32>, offset: Option<u32>) -> (r: Self)
        ensures
            r.shape == Shape::List,
            r.body@ == items@,
            r.paginated == paginated,
            r.limit == limit,
            r.offset == offset,
            r.total is None,
    {
        Renderable { shape: Shape::List, body: items, paginated, limit, offset, total: None }
    }

    pub fn single_flat(value: Json) -> (r: Self)
        ensures
            r.shape == Shape::SingleFlat,
            r.body@ == value@,
            !r.paginated,
            r.limit is None,
            r.offset is None,
            r.total is None,
    {
        Renderable { shape: Shape::SingleFlat, body: value, paginated: false, limit: None, offset: None, total: None }
    }

    pub fn single_nested(value: Json) -> (r: Self)
        ensures
            r.shape == Shape::SingleNested,
            r.body@ == value@,
            !r.paginated,
            r.limit is None,
            r.offset is None,
            r.total is None,
    {
        Renderable { shape: Shape::SingleNested, body: value, paginated: false, limit: None, offset: None, total: None }
    }

    pub fn with_total(self, total: Option<u64>) -> (r: Self)
        ensures
            r.shape == self.shape,
            r.body@ == self.body@,
            r.paginated == self.paginated,
            r.limit == self.limit,
            r.offset == self.offset,
            r.total == total,
    {
        let mut r = self;
        r.total = total;
        r
    }
}

// ---------------------------------------------------------------------------
// Projection trees built from `--fields` paths.

/// `--fields docs,total` gives `{docs: Leaf, total: Leaf}`; `--fields docs.year`
/// gives `{docs: {year: Leaf}}`; a `Leaf` absorbs any deeper path under it.
/// Children are kept in ascending key order.
#[derive(Debug)]
pub enum Projection {
    Leaf,
    Tree(Vec<(String, Projection)>),
}

pub enum ProjV {
    Leaf,
    Tree(Seq<(Seq<char>, ProjV)>),
}

pub open spec fn proj_models(s: Seq<(String, Projection)>) -> Seq<(Seq<char>, ProjV)>
    decreases s,
{
    if s.len() == 0 {
        Seq::empty()
    } else {
        proof {
            assert(decreases_to!(s => s.subrange(0, s.len() - 1)));
            assert(decreases_to!(s => s[s.len() - 1]));
            assert(decreases_to!(s[s.len() - 1] => s[s.len() - 1].1));
        }
        proj_models(s.subrange(0, s.len() - 1)).push((s[s.len() - 1].0@, s[s.len() - 1].1.model()))
    }
}

impl Projection {
    pub open spec fn model(&self) -> ProjV
        decreases self,
    {
        match self {
            Projection::Leaf => ProjV::Leaf,
            Projection::Tree(ch) => {
                proof {
                    assert(decreases_to!(self => *ch));
                    assert(decreases_to!(*ch => ch@));
                }
                ProjV::Tree(proj_models(ch@))
            },
        }
    }
}

impl View for Projection {
    type V = ProjV;

    open spec fn view(&self) -> ProjV {
        self.model()
    }
}

pub proof fn lemma_proj_models_index(s: Seq<(String, Projection)>)
    ensures
        proj_models(s).len() == s.len(),
        forall|i: int| 0 <= i < s.len() ==> #[trigger] proj_models(s)[i] == (s[i].0@, s[i].1.model()),
    decreases s.len(),
{
    if s.len() > 0 {
        lemma_proj_models_index(s.subrange(0, s.len() - 1));
    }
}

pub proof fn lemma_proj_models_ext(a: Seq<(String, Projection)>, b: Seq<(Seq<char>, ProjV)>)
    requires
        a.len() == b.len(),
        forall|i: int| 0 <= i < a.len() ==> (a[i].0@, a[i].1.model()) == b[i],
    ensures
        proj_models(a) == b,
{
    lemma_proj_models_index(a);
    assert(proj_models(a) =~= b);
}

/// The path with `segs` inserted: a `Leaf` stays a `Leaf`; otherwise the first
/// segment's child is replaced by a `Leaf` (last segment) or by the insertion
/// of the remaining segments into it.
pub open spec fn ins(node: ProjV, segs: Seq<Seq<char>>) -> ProjV
    decreases segs.len(),
{
    match node {
        ProjV::Leaf => ProjV::Leaf,
        ProjV::Tree(ch) => {
            if segs.len() == 0 {
                node
            } else if segs.len() == 1 {
                ProjV::Tree(put(ch, segs[0], ProjV::Leaf))
            } else {
                let child = if has_at_pos(ch, segs[0]) {
                    ch[pos_of(ch, segs[0]) as int].1
                } else {
                    ProjV::Tree(Seq::empty())
                };
                ProjV::Tree(put(ch, segs[0], ins(child, segs.drop_first())))
            }
        },
    }
}

/// The non-empty segments of a dotted path.
pub open spec fn nonempty(s: Seq<Seq<char>>) -> Seq<Seq<char>>
    decreases s.len(),
{
    if s.len() == 0 {
        Seq::empty()
    } else if s.last().len() == 0 {
        nonempty(s.drop_last())
    } else {
        nonempty(s.drop_last()).push(s.last())
    }
}

pub open spec fn path_segments(path: Seq<char>) -> Seq<Seq<char>> {
    nonempty(split_seq(path, '.'))
}

/// The projection that the `--fields` paths describe.
pub open spec fn projection_of(paths: Seq<Seq<char>>) -> ProjV
    decreases paths.len(),
{
    if paths.len() == 0 {
        ProjV::Tree(Seq::empty())
    } else {
        let prev = projection_of(paths.drop_last());
        let segs = path_segments(paths.last());
        if segs.len() == 0 {
            prev
        } else {
            ins(prev, segs)
        }
    }
}

/// The first segments of a projection: the keys of its root, in order.
pub open spec fn first_segs(p: ProjV) -> Seq<Seq<char>> {
    match p {
        ProjV::Leaf => Seq::empty(),
        ProjV::Tree(ch) => Seq::new(ch.len(), |i: int| ch[i].0),
    }
}

/// Position of `k` among entries, computed.
fn find_pos(ch: &Vec<(String, Projection)>, k: &str) -> (r: usize)
    ensures
        r == pos_of(proj_models(ch@), k@),
{
    proof {
        lemma_proj_models_index(ch@);
    }
    let ghost m = proj_models(ch@);
    let mut i: usize = 0;
    assert(m.subrange(0, m.len() as int) =~= m);
    while i < ch.len() && str_lt(ch[i].0.as_str(), k)
        invariant
            i <= ch@.len(),
            m.len() == ch@.len(),
            forall|j: int| 0 <= j < ch@.len() ==> #[trigger] m[j] == (ch@[j].0@, ch@[j].1.model()),
            pos_of(m, k@) == i + pos_of(m.subrange(i as int, m.len() as int), k@),
        decreases ch@.len() - i,
    {
        let ghost rest = m.subrange(i as int, m.len() as int);
        assert(rest.drop_first() =~= m.subrange(i + 1, m.len() as int));
        i = i + 1;
    }
    proof {
        let rest = m.subrange(i as int, m.len() as int);
        if i < ch@.len() {
            assert(rest[0] == m[i as int]);
        }
        assert(pos_of(rest, k@) == 0);
    }
    i
}

/// Inserts one path (its segments `segs[from..]`) into a projection.
fn insert_path(node: Projection, segs: &Vec<String>, from: usize) -> (r: Projection)
    requires
        from <= segs@.len(),
    ensures
        r@ == ins(node@, string_views(segs@).subrange(from as int, segs@.len() as int)),
    decreases segs@.len() - from,
{
    let ghost sv = string_views(segs@).subrange(from as int, segs@.len() as int);
    match node {
        Projection::Leaf => Projection::Leaf,
        Projection::Tree(ch) => {
            if from == segs.len() {
                return Projection::Tree(ch);
            }
            let ghost m = proj_models(ch@);
            let k = &segs[from];
            assert(sv[0] == k@);
            let pos = find_pos(&ch, k.as_str());
            proof {
                lemma_pos_of_bound(m, k@);
                lemma_proj_models_index(ch@);
            }
            let mut ch = ch;
            let present = pos < ch.len() && str_eq(ch[pos].0.as_str(), k.as_str());
            assert(present == has_at_pos(m, k@));
            let sub: Projection;
            if from + 1 == segs.len() {
                sub = Projection::Leaf;
                if present {
                    let _old = ch.remove(pos);
                }
            } else {
                let child: Projection;
                if present {
                    let (_key, c) = ch.remove(pos);
                    child = c;
                } else {
                    child = Projection::Tree(Vec::new());
                    assert(proj_models(Seq::<(String, Projection)>::empty()) =~= Seq::<(Seq<char>, ProjV)>::empty());
                }
                sub = insert_path(child, segs, from + 1);
                assert(sv.drop_first() =~= string_views(segs@).subrange(from + 1, segs@.len() as int));
            }
            let ghost subm = sub@;
            ch.insert(pos, (k.clone(), sub));
            proof {
                let expected = put(m, k@, subm);
                assert(ch@.len() == expected.len());
                assert forall|j: int| 0 <= j < ch@.len() implies (ch@[j].0@, ch@[j].1.model()) == expected[j] by {
                    if j == pos {
                    } else if j < pos {
                    } else {
                        if !present {
                        }
                    }
                }
                lemma_proj_models_ext(ch@, expected);
            }
            Projection::Tree(ch)
        },
    }
}


/// The non-empty pieces, in order.
pub(crate) fn keep_nonempty(pieces: Vec<String>) -> (r: Vec<String>)
    ensures
        string_views(r@) == nonempty(string_views(pieces@)),
{
    let mut r: Vec<String> = Vec::new();
    let mut i: usize = 0;
    assert(string_views(pieces@.subrange(0, 0)) =~= Seq::<Seq<char>>::empty());
    assert(string_views(r@) =~= Seq::<Seq<char>>::empty());
    while i < pieces.len()
        invariant
            i <= pieces@.len(),
            string_views(r@) == nonempty(string_views(pieces@.subrange(0, i as int))),
        decreases pieces@.len() - i,
    {
        let ghost pre = string_views(pieces@.subrange(0, i as int));
        let ghost next = string_views(pieces@.subrange(0, i + 1));
        assert(next.drop_last() =~= pre);
        assert(next.last() == pieces@[i as int]@);
        if pieces[i].unicode_len() > 0 {
            let ghost old_r = r@;
            r.push(pieces[i].clone());
            assert(string_views(r@) =~= string_views(old_r).push(pieces@[i as int]@));
        }
        i = i + 1;
    }
    assert(pieces@.subrange(0, pieces@.len() as int) =~= pieces@);
    r
}

impl Projection {
    /// The projection described by `--fields` paths (dot-separated; empty
    /// segments ignored; paths with no segment skipped). It does not depend
    /// on the order of the paths or on repeats, and a path absorbs those under
    /// it ([`crate::laws::lemma_projection_ignores_order_and_repetition`];
    /// one insertion is [`crate::laws::lemma_insert_path`]).
    pub fn from_paths(paths: &[String]) -> (r: Projection)
        ensures
            r@ == projection_of(string_views(paths@)),
    {
        let mut root = Projection::Tree(Vec::new());
        assert(proj_models(Seq::<(String, Projection)>::empty()) =~= Seq::<(Seq<char>, ProjV)>::empty());
        let mut i: usize = 0;
        assert(string_views(paths@.subrange(0, 0)) =~= Seq::<Seq<char>>::empty());
        while i < paths.len()
            invariant
                i <= paths@.len(),
                root@ == projection_of(string_views(paths@.subrange(0, i as int))),
            decreases paths@.len() - i,
        {
            let ghost pre = string_views(paths@.subrange(0, i as int));
            let ghost next = string_views(paths@.subrange(0, i + 1));
            assert(next.drop_last() =~= pre);
            assert(next.last() == paths@[i as int]@);
            let v = chars_of(paths[i].as_str());
            let pieces = split_chars(&v, 0, v.len(), '.');
            assert(v@.subrange(0, v@.len() as int) =~= paths@[i as int]@);
            let segs = keep_nonempty(pieces);
            if segs.len() > 0 {
                assert(string_views(segs@).subrange(0, segs@.len() as int) =~= string_views(segs@));
                root = insert_path(root, &segs, 0);
            }
            i = i + 1;
        }
        assert(paths@.subrange(0, paths@.len() as int) =~= paths@);
        root
    }

    /// The keys of the root, in order.
    pub fn first_segments(&self) -> (r: Vec<String>)
        ensures
            string_views(r@) == first_segs(self@),
    {
        let mut r: Vec<String> = Vec::new();
        match self {
            Projection::Leaf => {
                assert(string_views(r@) =~= Seq::<Seq<char>>::empty());
            },
            Projection::Tree(ch) => {
                proof {
                    lemma_proj_models_index(ch@);
                }
                let mut i: usize = 0;
                while i < ch.len()
                    invariant
                        i <= ch@.len(),
                        self@ == ProjV::Tree(proj_models(ch@)),
                        proj_models(ch@).len() == ch@.len(),
                        forall|j: int| 0 <= j < ch@.len() ==> #[trigger] proj_models(ch@)[j] == (ch@[j].0@, ch@[j].1.model()),
                        string_views(r@) == first_segs(self@).subrange(0, i as int),
                    decreases ch@.len() - i,
                {
                    assert(proj_models(ch@)[i as int] == (ch@[i as int].0@, ch@[i as int].1.model()));
                    assert(first_segs(self@)[i as int] == ch@[i as int].0@);
                    let ghost old_r = r@;
                    r.push(ch[i].0.clone());
                    assert(string_views(r@) =~= string_views(old_r).push(ch@[i as int].0@));
                    i = i + 1;
                    assert(string_views(r@) =~= first_segs(self@).subrange(0, i as int));
                }
                assert(first_segs(self@).subrange(0, ch@.len() as int) =~= first_segs(self@));
            },
        }
        r
    }
}

// ---------------------------------------------------------------------------
// Projecting a value.

/// Projects a value: at a `Leaf` the value is kept whole; an object keeps the
/// members named in the tree (in tree order), each projected; an array projects
/// every element with the same tree; other values are kept.
pub open spec fn proj(v: JsonV, p: ProjV) -> JsonV
    decreases p, v,
{
    match p {
        ProjV::Leaf => v,
        ProjV::Tree(t) => match v {
            JsonV::Object(o) => JsonV::Object(proj_members(o, t)),
            JsonV::Array(items) => JsonV::Array(proj_items(items, p)),
            _ => v,
        },
    }
}

pub open spec fn proj_items(items: Seq<JsonV>, p: ProjV) -> Seq<JsonV>
    decreases p, items,
{
    if items.len() == 0 {
        Seq::empty()
    } else {
        proof {
            assert(decreases_to!(items => items.subrange(0, items.len() - 1)));
            assert(decreases_to!(items => items[items.len() - 1]));
        }
        proj_items(items.subrange(0, items.len() - 1), p).push(proj(items[items.len() - 1], p))
    }
}

pub open spec fn proj_members(o: Seq<(Seq<char>, JsonV)>, t: Seq<(Seq<char>, ProjV)>) -> Seq<(Seq<char>, JsonV)>
    decreases t, o,
{
    if t.len() == 0 {
        Seq::empty()
    } else {
        proof {
            assert(decreases_to!(t => t.subrange(0, t.len() - 1)));
            assert(decreases_to!(t => t[t.len() - 1]));
            assert(decreases_to!(t[t.len() - 1] => t[t.len() - 1].1));
        }
        let prev = proj_members(o, t.subrange(0, t.len() - 1));
        let k = t[t.len() - 1].0;
        match obj_lookup(o, k) {
            Some(x) => prev.push((k, proj(x, t[t.len() - 1].1))),
            None => prev,
        }
    }
}


/// Projects `value` through `p` (see [`proj`]).
#[verifier::loop_isolation(false)]
pub fn project(value: &Json, p: &Projection) -> (r: Json)
    ensures
        r@ == proj(value@, p@),
    decreases p, value,
{
    match p {
        Projection::Leaf => deep_clone(value),
        Projection::Tree(t) => match value {
            Json::Object(o) => {
                let ghost tm = proj_models(t@);
                let ghost om = pair_models(o@);
                proof {
                    lemma_proj_models_index(t@);
                }
                let mut out: Vec<(String, Json)> = Vec::new();
                let mut i: usize = 0;
                assert(tm.subrange(0, 0) =~= Seq::<(Seq<char>, ProjV)>::empty());
                assert(pair_models(out@) =~= Seq::<(Seq<char>, JsonV)>::empty());
                while i < t.len()
                    invariant
                        i <= t@.len(),
                        pair_models(out@) == proj_members(om, tm.subrange(0, i as int)),
                    decreases t@.len() - i,
                {
                    proof {
                        assert(tm.subrange(0, i + 1).subrange(0, i as int) =~= tm.subrange(0, i as int));
                        assert(tm[i as int] == (t@[i as int].0@, t@[i as int].1.model()));
                        assert(decreases_to!(*p => (*p)->Tree_0));
                        assert(decreases_to!((*p)->Tree_0 => t@));
                        assert(decreases_to!(t@ => t@[i as int]));
                        assert(decreases_to!(t@[i as int] => t@[i as int].1));
                    }
                    let k = &t[i].0;
                    match value.get(k.as_str()) {
                        Some(x) => {
                            let px = project(x, &t[i].1);
                            let kc = k.clone();
                            proof {
                                lemma_pair_models_push(out@, (kc, px));
                            }
                            out.push((kc, px));
                        },
                        None => {},
                    }
                    i = i + 1;
                }
                assert(tm.subrange(0, t@.len() as int) =~= tm);
                Json::Object(out)
            },
            Json::Array(items) => {
                let ghost im = models(items@);
                proof {
                    lemma_models_index(items@);
                }
                let mut out: Vec<Json> = Vec::new();
                let mut i: usize = 0;
                assert(im.subrange(0, 0) =~= Seq::<JsonV>::empty());
                assert(models(out@) =~= Seq::<JsonV>::empty());
                while i < items.len()
                    invariant
                        i <= items@.len(),
                        models(out@) == proj_items(im.subrange(0, i as int), p@),
                    decreases items@.len() - i,
                {
                    proof {
                        assert(im.subrange(0, i + 1).subrange(0, i as int) =~= im.subrange(0, i as int));
                        assert(decreases_to!(*value => (*value)->Array_0));
                        assert(decreases_to!((*value)->Array_0 => items@));
                        assert(decreases_to!(items@ => items@[i as int]));
                    }
                    let px = project(&items[i], p);
                    proof {
                        lemma_models_push(out@, px);
                    }
                    out.push(px);
                    i = i + 1;
                }
                assert(im.subrange(0, items@.len() as int) =~= im);
                Json::Array(out)
            },
            _ => deep_clone(value),
        },
    }
}


// ---------------------------------------------------------------------------
// `--fields` filtering.

/// The segments that are not among `known`, in order.
pub open spec fn not_in(segs: Seq<Seq<char>>, known: Seq<Seq<char>>) -> Seq<Seq<char>>
    decreases segs.len(),
{
    if segs.len() == 0 {
        Seq::empty()
    } else if known.contains(segs.last()) {
        not_in(segs.drop_last(), known)
    } else {
        not_in(segs.drop_last(), known).push(segs.last())
    }
}

/// Whether the body has the form that projection applies to: an array for a
/// list, an object for a single record.
pub open spec fn projectable(shape: Shape, body: JsonV) -> bool {
    match shape {
        Shape::List => body is Array,
        _ => body is Object,
    }
}

/// The message of the error for unknown `--fields` names.
pub open spec fn unknown_fields_message(unknown: Seq<Seq<char>>, known: Seq<Seq<char>>) -> Seq<char> {
    "unknown fields: "@ + join(unknown, ","@) + ". known top-level: "@ + join(known, ","@)
}

/// What [`apply_fields`] makes of a renderable: `Err(message)` when a first
/// segment is not known, otherwise the projected body.
pub open spec fn fields_result(shape: Shape, body: JsonV, fields: Seq<Seq<char>>, known: Seq<Seq<char>>) -> core::result::Result<JsonV, Seq<char>> {
    let p = projection_of(fields);
    let unknown = not_in(first_segs(p), known);
    if unknown.len() > 0 {
        Err(unknown_fields_message(unknown, known))
    } else if projectable(shape, body) {
        Ok(proj(body, p))
    } else {
        Ok(body)
    }
}

/// Whether `r` is `base` with its body replaced by `body`.
pub open spec fn same_but_body(r: Renderable, base: Renderable, body: JsonV) -> bool {
    &&& r.shape == base.shape
    &&& r.body@ == body
    &&& r.paginated == base.paginated
    &&& r.limit == base.limit
    &&& r.offset == base.offset
    &&& r.total == base.total
}

fn contains_str(list: &[&str], s: &str) -> (r: bool)
    ensures
        r == views(list@).contains(s@),
{
    str_in(s, list)
}

/// Applies a `--fields` filter. Only first segments are checked against
/// `known_fields`; deeper segments are not (the response below the top level
/// has no closed schema).
pub fn apply_fields(r: Renderable, fields: &[String], known_fields: &[&str]) -> (res: Result<Renderable>)
    ensures
        match fields_result(r.shape, r.body@, string_views(fields@), views(known_fields@)) {
            Ok(b) => res is Ok && same_but_body(res->Ok_0, r, b),
            Err(m) => res is Err && res->Err_0@.kind == ErrorKind::Validation && res->Err_0@.message == m,
        },
{
    let projection = Projection::from_paths(fields);
    let firsts = projection.first_segments();
    let ghost known = views(known_fields@);
    let mut unknown: Vec<String> = Vec::new();
    let mut i: usize = 0;
    assert(string_views(firsts@).subrange(0, 0) =~= Seq::<Seq<char>>::empty());
    assert(string_views(unknown@) =~= Seq::<Seq<char>>::empty());
    while i < firsts.len()
        invariant
            i <= firsts@.len(),
            string_views(unknown@) == not_in(string_views(firsts@).subrange(0, i as int), known),
            known == views(known_fields@),
        decreases firsts@.len() - i,
    {
        let ghost pre = string_views(firsts@).subrange(0, i as int);
        assert(string_views(firsts@).subrange(0, i + 1).drop_last() =~= pre);
        assert(string_views(firsts@).subrange(0, i + 1).last() == firsts@[i as int]@);
        if !contains_str(known_fields, firsts[i].as_str()) {
            let ghost old_u = unknown@;
            unknown.push(firsts[i].clone());
            assert(string_views(unknown@) =~= string_views(old_u).push(firsts@[i as int]@));
        }
        i = i + 1;
    }
    assert(string_views(firsts@).subrange(0, firsts@.len() as int) =~= string_views(firsts@));
    if unknown.len() > 0 {
        let mut known_list: Vec<String> = Vec::new();
        let mut j: usize = 0;
        while j < known_fields.len()
            invariant
                j <= known_fields@.len(),
                string_views(known_list@) == known.subrange(0, j as int),
                known == views(known_fields@),
            decreases known_fields@.len() - j,
        {
            let ghost old_k = known_list@;
            let item = known_fields[j].to_owned();
            known_list.push(item);
            assert(string_views(known_list@) =~= string_views(old_k).push(known[j as int]));
            j = j + 1;
            assert(string_views(known_list@) =~= known.subrange(0, j as int));
        }
        assert(known.subrange(0, known_fields@.len() as int) =~= known);
        let u = join_strings(&unknown, ",");
        let k = join_strings(&known_list, ",");
        let msg = cat4("unknown fields: ", u.as_str(), ". known top-level: ", k.as_str());
        return Err(Error::new(ErrorKind::Validation, msg.as_str()));
    }
    let project_it = match (r.shape, &r.body) {
        (Shape::List, Json::Array(_)) => true,
        (Shape::SingleFlat, Json::Object(_)) => true,
        (Shape::SingleNested, Json::Object(_)) => true,
        _ => false,
    };
    let body = if project_it {
        project(&r.body, &projection)
    } else {
        deep_clone(&r.body)
    };
    Ok(Renderable { shape: r.shape, body, paginated: r.paginated, limit: r.limit, offset: r.offset, total: r.total })
}


/// The keys of an object's members added to an ascending key list.
pub open spec fn add_keys(acc: Seq<Seq<char>>, pairs: Seq<(Seq<char>, JsonV)>) -> Seq<Seq<char>>
    decreases pairs.len(),
{
    if pairs.len() == 0 {
        acc
    } else {
        set_put(add_keys(acc, pairs.drop_last()), pairs.last().0)
    }
}

/// The union of the keys of the object items of a list, ascending.
pub open spec fn item_keys(items: Seq<JsonV>) -> Seq<Seq<char>>
    decreases items.len(),
{
    if items.len() == 0 {
        Seq::empty()
    } else {
        let prev = item_keys(items.drop_last());
        match items.last() {
            JsonV::Object(o) => add_keys(prev, o),
            _ => prev,
        }
    }
}

/// The top-level field names observed in a response, when it has the form
/// that `--fields` applies to.
pub open spec fn observed_fields(shape: Shape, body: JsonV) -> Option<Seq<Seq<char>>> {
    match (shape, body) {
        (Shape::List, JsonV::Array(items)) => Some(item_keys(items)),
        (Shape::List, _) => None,
        (_, JsonV::Object(o)) => Some(add_keys(Seq::empty(), o)),
        _ => None,
    }
}

fn add_object_keys(keys: &mut Vec<String>, pairs: &Vec<(String, Json)>)
    ensures
        string_views(final(keys)@) == add_keys(string_views(old(keys)@), pair_models(pairs@)),
{
    let ghost start = string_views(keys@);
    let ghost pm = pair_models(pairs@);
    proof {
        lemma_pair_models_index(pairs@);
    }
    let mut i: usize = 0;
    assert(pm.subrange(0, 0) =~= Seq::<(Seq<char>, JsonV)>::empty());
    while i < pairs.len()
        invariant
            i <= pairs@.len(),
            pm.len() == pairs@.len(),
            forall|j: int| 0 <= j < pairs@.len() ==> #[trigger] pm[j] == (pairs@[j].0@, pairs@[j].1.model()),
            string_views(keys@) == add_keys(start, pm.subrange(0, i as int)),
        decreases pairs@.len() - i,
    {
        assert(pm.subrange(0, i + 1).drop_last() =~= pm.subrange(0, i as int));
        assert(pm.subrange(0, i + 1).last() == pm[i as int]);
        set_insert(keys, pairs[i].0.as_str());
        i = i + 1;
    }
    assert(pm.subrange(0, pairs@.len() as int) =~= pm);
}

/// Applies a `--fields` filter using the top-level keys observed in the
/// response as the known fields; a no-op when nothing is observed.
pub fn apply_fields_auto(r: Renderable, fields: &[String]) -> (res: Result<Renderable>)
    ensures
        match observed_fields(r.shape, r.body@) {
            Some(known) if known.len() > 0 => match fields_result(r.shape, r.body@, string_views(fields@), known) {
                Ok(b) => res is Ok && same_but_body(res->Ok_0, r, b),
                Err(m) => res is Err && res->Err_0@.kind == ErrorKind::Validation && res->Err_0@.message == m,
            },
            _ => res is Ok && same_but_body(res->Ok_0, r, r.body@),
        },
{
    let mut keys: Vec<String> = Vec::new();
    assert(string_views(keys@) =~= Seq::<Seq<char>>::empty());
    match (r.shape, &r.body) {
        (Shape::List, Json::Array(items)) => {
            let ghost im = models(items@);
            proof {
                lemma_models_index(items@);
            }
            let mut i: usize = 0;
            assert(im.subrange(0, 0) =~= Seq::<JsonV>::empty());
            while i < items.len()
                invariant
                    i <= items@.len(),
                    im.len() == items@.len(),
                    forall|j: int| 0 <= j < items@.len() ==> #[trigger] im[j] == items@[j].model(),
                    string_views(keys@) == item_keys(im.subrange(0, i as int)),
                decreases items@.len() - i,
            {
                assert(im.subrange(0, i + 1).drop_last() =~= im.subrange(0, i as int));
                assert(im.subrange(0, i + 1).last() == im[i as int]);
                match &items[i] {
                    Json::Object(o) => {
                        add_object_keys(&mut keys, o);
                    },
                    _ => {},
                }
                i = i + 1;
            }
            assert(im.subrange(0, items@.len() as int) =~= im);
        },
        (Shape::SingleFlat, Json::Object(o)) => {
            add_object_keys(&mut keys, o);
        },
        (Shape::SingleNested, Json::Object(o)) => {
            add_object_keys(&mut keys, o);
        },
        _ => {
            return Ok(r);
        },
    }
    if keys.len() == 0 {
        return Ok(r);
    }
    let mut known: Vec<&str> = Vec::new();
    let mut j: usize = 0;
    while j < keys.len()
        invariant
            j <= keys@.len(),
            views(known@) == string_views(keys@).subrange(0, j as int),
        decreases keys@.len() - j,
    {
        let ghost old_k = known@;
        known.push(keys[j].as_str());
        assert(views(known@) =~= views(old_k).push(keys@[j as int]@));
        j = j + 1;
        assert(string_views(keys@).subrange(0, j as int) =~= string_views(keys@).subrange(0, j - 1).push(keys@[j - 1]@));
    }
    assert(string_views(keys@).subrange(0, keys@.len() as int) =~= string_views(keys@));
    apply_fields(r, fields, known.as_slice())
}

/// `ndjson` needs a list-shaped response.
pub fn ensure_format_compatible(r: &Renderable, fmt: Format) -> (res: Result<()>)
    ensures
        res is Err <==> (fmt == Format::Ndjson && r.shape != Shape::List),
        res is Err ==> res->Err_0@.kind == ErrorKind::Validation
            && res->Err_0@.message == "--output ndjson requires a list response; this command returns "@ + r.shape.name(),
{
    if fmt == Format::Ndjson && r.shape != Shape::List {
        let msg = cat2("--output ndjson requires a list response; this command returns ", r.shape.as_str());
        return Err(Error::new(ErrorKind::Validation, msg.as_str()));
    }
    Ok(())
}

/// A number for `Some(n)`, `null` for `None`.
pub open spec fn opt_num(n: Option<u64>) -> JsonV {
    match n {
        Some(x) => JsonV::Number(dec(x as nat), if x <= i64::MAX { Some(x as i64) } else { None }, Some(x)),
        None => JsonV::Null,
    }
}

pub open spec fn opt_u32_as_u64(n: Option<u32>) -> Option<u64> {
    match n {
        Some(x) => Some(x as u64),
        None => None,
    }
}

/// The wrapper `{items, limit, offset, paginated, total}` of a list (members in
/// ascending key order); `total` defaults to the number of items.
pub open spec fn envelope(items: Seq<JsonV>, total: Option<u64>, limit: Option<u32>, offset: Option<u32>, paginated: bool) -> JsonV {
    JsonV::Object(seq![
        ("items"@, JsonV::Array(items)),
        ("limit"@, opt_num(opt_u32_as_u64(limit))),
        ("offset"@, opt_num(opt_u32_as_u64(offset))),
        ("paginated"@, JsonV::Bool(paginated)),
        ("total"@, opt_num(Some(match total { Some(t) => t, None => items.len() as u64 }))),
    ])
}

/// The items of a list body: its elements when it is an array, none otherwise.
pub open spec fn list_items(body: JsonV) -> Seq<JsonV> {
    match body {
        JsonV::Array(items) => items,
        _ => Seq::empty(),
    }
}

impl Renderable {
    /// The list wrapper with pagination metadata.
    pub fn list_envelope(&self, total_override: Option<u64>) -> (r: Json)
        requires
            self.shape == Shape::List,
        ensures
            r@ == envelope(list_items(self.body@), total_override, self.limit, self.offset, self.paginated),
    {
        let items = match &self.body {
            Json::Array(_) => deep_clone(&self.body),
            _ => Json::empty_array(),
        };
        let n: u64 = match &items {
            Json::Array(v) => v.len() as u64,
            _ => 0,
        };
        proof {
            if items is Array {
                lemma_models_index(items->Array_0@);
            }
        }
        let total = match total_override {
            Some(t) => t,
            None => n,
        };
        let limit = match self.limit {
            Some(x) => Some(x as u64),
            None => None,
        };
        let offset = match self.offset {
            Some(x) => Some(x as u64),
            None => None,
        };
        let mut members: Vec<(String, Json)> = Vec::new();
        members.push(("items".to_owned(), items));
        members.push(("limit".to_owned(), Json::from_opt_u64(limit)));
        members.push(("offset".to_owned(), Json::from_opt_u64(offset)));
        members.push(("paginated".to_owned(), Json::Bool(self.paginated)));
        members.push(("total".to_owned(), Json::from_u64(total)));
        proof {
            lemma_pair_models_index(members@);
            let expected = match envelope(list_items(self.body@), total_override, self.limit, self.offset, self.paginated) {
                JsonV::Object(e) => e,
                _ => Seq::empty(),
            };
            assert(pair_models(members@) =~= expected);
        }
        Json::Object(members)
    }
}


// ---------------------------------------------------------------------------
// The note on a page cut short by the default page size.

/// The note written to standard error when a list was cut to the default
/// page size: only when no `--limit` was given, `--quiet` is off, a page size
/// was applied and the total known is larger than the items shown.
pub open spec fn truncation_note_text(r: Renderable, limit_given: bool, quiet: bool) -> Option<Seq<char>> {
    let shown = list_items(r.body@).len();
    if !limit_given && !quiet && r.shape == Shape::List && r.limit is Some && r.total is Some && r.total->0 > shown {
        Some("note: showing "@ + dec(shown) + " of "@ + dec(r.total->0 as nat)
            + " records; pass --limit to see more\n"@)
    } else {
        None
    }
}

pub fn truncation_note(r: &Renderable, limit_given: bool, quiet: bool) -> (note: Option<String>)
    ensures
        match note {
            Some(t) => truncation_note_text(*r, limit_given, quiet) == Some(t@),
            None => truncation_note_text(*r, limit_given, quiet) is None,
        },
{
    if limit_given || quiet || r.limit.is_none() {
        return None;
    }
    match r.shape {
        Shape::List => {},
        _ => return None,
    }
    let shown: usize = match &r.body {
        Json::Array(items) => items.len(),
        _ => 0,
    };
    proof {
        if r.body@ is Array {
            lemma_models_index(r.body->Array_0@);
        }
    }
    match r.total {
        Some(t) => {
            if t > shown as u64 {
                let a = u64_text(shown as u64);
                let b = u64_text(t);
                Some(cat5("note: showing ", a.as_str(), " of ", b.as_str(), " records; pass --limit to see more\n"))
            } else {
                None
            }
        },
        None => None,
    }
}

} // verus!
