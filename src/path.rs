use vstd::prelude::*;

verus! {

/// The name inside a `{name}` path segment, or `None` for a literal segment.
pub open spec fn param_name(segment: Seq<char>) -> Option<Seq<char>> {
    if segment.len() >= 2 && segment[0] == '{' && segment[segment.len() - 1] == '}' {
        Some(segment.subrange(1, segment.len() - 1))
    } else {
        None
    }
}

/// Splitting on `/`, read left to right: the segments already closed by a `/`,
/// and the segment still open.
pub open spec fn split_acc(s: Seq<char>) -> (Seq<Seq<char>>, Seq<char>)
    decreases s.len(),
{
    if s.len() == 0 {
        (Seq::empty(), Seq::empty())
    } else {
        let (done, cur) = split_acc(s.drop_last());
        if s.last() == '/' {
            (done.push(cur), Seq::empty())
        } else {
            (done, cur.push(s.last()))
        }
    }
}

/// `s` split on every `/`; an empty `s` is one empty segment.
pub open spec fn split_slash(s: Seq<char>) -> Seq<Seq<char>> {
    split_acc(s).0.push(split_acc(s).1)
}

/// The segments of a pattern that starts with `/`, the leading `/` skipped.
pub open spec fn pattern_segments(pattern: Seq<char>) -> Seq<Seq<char>> {
    split_slash(pattern.drop_first())
}

pub open spec fn strs(v: Seq<String>) -> Seq<Seq<char>> {
    v.map_values(|s: String| s@)
}

/// The parameters as names with their ordered values.
pub open spec fn params_view(p: Seq<(String, Vec<String>)>) -> Seq<(Seq<char>, Seq<Seq<char>>)> {
    p.map_values(|e: (String, Vec<String>)| (e.0@, strs(e.1@)))
}

/// The first parameter entry named `name`.
pub open spec fn find_param(params: Seq<(Seq<char>, Seq<Seq<char>>)>, name: Seq<char>) -> Option<int>
    decreases params.len(),
{
    if params.len() == 0 {
        None
    } else {
        match find_param(params.drop_last(), name) {
            Some(i) => Some(i),
            None => if params.last().0 == name {
                Some(params.len() - 1)
            } else {
                None
            },
        }
    }
}

/// Why a pattern could not be expanded.
pub enum PathFault {
    MissingSlash,
    NoValues(Seq<char>),
    MultipleValues(Seq<char>),
}

/// Expansion of the segments: the path segments produced and the indices of
/// the parameters consumed by placeholders.
pub open spec fn expand(params: Seq<(Seq<char>, Seq<Seq<char>>)>, segs: Seq<Seq<char>>) -> Result<
    (Seq<Seq<char>>, Set<int>),
    PathFault,
>
    decreases segs.len(),
{
    if segs.len() == 0 {
        Ok((Seq::empty(), Set::empty()))
    } else {
        match expand(params, segs.drop_last()) {
            Err(e) => Err(e),
            Ok((out, used)) => match param_name(segs.last()) {
                None => Ok((out.push(segs.last()), used)),
                Some(n) => match find_param(params, n) {
                    None => Err(PathFault::NoValues(n)),
                    Some(i) => if used.contains(i) || params[i].1.len() == 0 {
                        Err(PathFault::NoValues(n))
                    } else if params[i].1.len() > 1 {
                        Err(PathFault::MultipleValues(n))
                    } else {
                        Ok((out.push(params[i].1[0]), used.insert(i)))
                    },
                },
            },
        }
    }
}

/// The query pairs of the first `n` parameter entries that were not consumed,
/// one pair per value, values in order.
pub open spec fn query_of(params: Seq<(Seq<char>, Seq<Seq<char>>)>, used: Set<int>, n: int) -> Seq<
    (Seq<char>, Seq<char>),
>
    decreases n,
{
    if n <= 0 {
        Seq::empty()
    } else {
        query_of(params, used, n - 1) + if used.contains(n - 1) {
            Seq::empty()
        } else {
            pairs_of(params[n - 1].0, params[n - 1].1)
        }
    }
}

pub open spec fn pairs_of(name: Seq<char>, values: Seq<Seq<char>>) -> Seq<(Seq<char>, Seq<char>)> {
    values.map_values(|v: Seq<char>| (name, v))
}

/// The path segments and query pairs that a pattern and its parameters expand to.
pub open spec fn compose(pattern: Seq<char>, params: Seq<(Seq<char>, Seq<Seq<char>>)>) -> Result<
    (Seq<Seq<char>>, Seq<(Seq<char>, Seq<char>)>),
    PathFault,
> {
    if pattern.len() == 0 || pattern[0] != '/' {
        Err(PathFault::MissingSlash)
    } else {
        match expand(params, pattern_segments(pattern)) {
            Err(e) => Err(e),
            Ok((out, used)) => Ok((out, query_of(params, used, params.len() as int))),
        }
    }
}

/// Whether two strings hold the same characters.
pub fn str_eq(a: &str, b: &str) -> (r: bool)
    ensures
        r == (a@ == b@),
{
    let n = a.unicode_len();
    if n != b.unicode_len() {
        return false;
    }
    let mut i: usize = 0;
    while i < n
        invariant
            n == a@.len() == b@.len(),
            i <= n,
            a@.subrange(0, i as int) == b@.subrange(0, i as int),
        decreases n - i,
    {
        if a.get_char(i) != b.get_char(i) {
            assert(a@[i as int] != b@[i as int]);
            return false;
        }
        assert(a@.subrange(0, i + 1) =~= a@.subrange(0, i as int).push(a@[i as int]));
        assert(b@.subrange(0, i + 1) =~= b@.subrange(0, i as int).push(b@[i as int]));
        i = i + 1;
    }
    assert(a@ =~= a@.subrange(0, n as int));
    assert(b@ =~= b@.subrange(0, n as int));
    true
}

/// The segments of `pattern` after its first character, split on `/`.
pub fn split_pattern(pattern: &str) -> (r: Vec<String>)
    requires
        pattern@.len() >= 1,
    ensures
        strs(r@) == pattern_segments(pattern@),
{
    let n = pattern.unicode_len();
    let mut segs: Vec<String> = Vec::new();
    let mut start: usize = 1;
    let mut i: usize = 1;
    assert(pattern@.subrange(1, 1) =~= Seq::<char>::empty());
    while i < n
        invariant
            n == pattern@.len(),
            1 <= start <= i <= n,
            split_acc(pattern@.subrange(1, i as int)) == (strs(segs@), pattern@.subrange(
                start as int,
                i as int,
            )),
        decreases n - i,
    {
        let c = pattern.get_char(i);
        let ghost s = pattern@.subrange(1, i + 1);
        assert(s.drop_last() =~= pattern@.subrange(1, i as int));
        assert(s.last() == c);
        if c == '/' {
            let ghost before = segs@;
            let seg = pattern.substring_char(start, i).to_owned();
            segs.push(seg);
            assert(strs(segs@) =~= strs(before).push(seg@));
            start = i + 1;
            assert(pattern@.subrange(start as int, i + 1) =~= Seq::<char>::empty());
        } else {
            assert(pattern@.subrange(start as int, i + 1) =~= pattern@.subrange(
                start as int,
                i as int,
            ).push(c));
        }
        i = i + 1;
    }
    let ghost before = segs@;
    let last = pattern.substring_char(start, n).to_owned();
    segs.push(last);
    assert(strs(segs@) =~= strs(before).push(last@));
    assert(pattern@.drop_first() =~= pattern@.subrange(1, n as int));
    segs
}

} // verus!

verus! {

/// The first entry of `p` that stays first in every longer prefix.
pub proof fn lemma_find_prefix(p: Seq<(Seq<char>, Seq<Seq<char>>)>, name: Seq<char>, m: int)
    requires
        0 <= m <= p.len(),
        find_param(p.take(m), name) is Some,
    ensures
        find_param(p, name) == find_param(p.take(m), name),
    decreases p.len(),
{
    if m == p.len() {
        assert(p.take(m) =~= p);
    } else {
        assert(p.drop_last().take(m) =~= p.take(m));
        lemma_find_prefix(p.drop_last(), name, m);
    }
}

/// A fault in the first `m` segments is the fault of the whole expansion.
pub proof fn lemma_expand_fault_prefix(
    params: Seq<(Seq<char>, Seq<Seq<char>>)>,
    segs: Seq<Seq<char>>,
    m: int,
)
    requires
        0 <= m <= segs.len(),
        expand(params, segs.take(m)) is Err,
    ensures
        expand(params, segs) == expand(params, segs.take(m)),
    decreases segs.len(),
{
    if m == segs.len() {
        assert(segs.take(m) =~= segs);
    } else {
        assert(segs.drop_last().take(m) =~= segs.take(m));
        lemma_expand_fault_prefix(params, segs.drop_last(), m);
    }
}

/// A pattern expanded into path segments and query pairs.
pub struct ComposedPath {
    pub segments: Vec<String>,
    pub query: Vec<(String, String)>,
}

/// Why a pattern could not be expanded.
pub enum PathError {
    MissingSlash,
    NoValues(String),
    MultipleValues(String),
}

impl PathError {
    pub open spec fn view(&self) -> PathFault {
        match self {
            PathError::MissingSlash => PathFault::MissingSlash,
            PathError::NoValues(n) => PathFault::NoValues(n@),
            PathError::MultipleValues(n) => PathFault::MultipleValues(n@),
        }
    }
}

pub open spec fn pairs_view(q: Seq<(String, String)>) -> Seq<(Seq<char>, Seq<char>)> {
    q.map_values(|e: (String, String)| (e.0@, e.1@))
}

impl ComposedPath {
    pub open spec fn view(&self) -> (Seq<Seq<char>>, Seq<(Seq<char>, Seq<char>)>) {
        (strs(self.segments@), pairs_view(self.query@))
    }
}

/// The model of an expansion's outcome.
pub open spec fn composed_view(r: Result<ComposedPath, PathError>) -> Result<
    (Seq<Seq<char>>, Seq<(Seq<char>, Seq<char>)>),
    PathFault,
> {
    match r {
        Ok(c) => Ok(c@),
        Err(e) => Err(e@),
    }
}

/// The index of the first entry of `params` named `name`.
pub fn find_index(params: &Vec<(String, Vec<String>)>, name: &str) -> (r: Option<usize>)
    ensures
        r matches Some(i) ==> i < params@.len() && find_param(params_view(params@), name@) == Some(
            i as int,
        ),
        r is None ==> find_param(params_view(params@), name@) is None,
{
    let ghost pv = params_view(params@);
    let mut i: usize = 0;
    assert(pv.take(0) =~= Seq::<(Seq<char>, Seq<Seq<char>>)>::empty());
    while i < params.len()
        invariant
            pv == params_view(params@),
            i <= params@.len(),
            find_param(pv.take(i as int), name@) is None,
        decreases params@.len() - i,
    {
        assert(pv.take(i + 1).drop_last() =~= pv.take(i as int));
        if str_eq(params[i].0.as_str(), name) {
            assert(find_param(pv.take(i + 1), name@) == Some(i as int));
            proof {
                lemma_find_prefix(pv, name@, i + 1);
            }
            return Some(i);
        }
        i = i + 1;
    }
    assert(pv.take(i as int) =~= pv);
    None
}

} // verus!

verus! {

/// Each output segment is the pattern segment itself, or for a placeholder
/// the single value of its parameter.
pub open spec fn follows_segments(
    params: Seq<(Seq<char>, Seq<Seq<char>>)>,
    segs: Seq<Seq<char>>,
    out: Seq<Seq<char>>,
) -> bool {
    &&& out.len() == segs.len()
    &&& forall|i: int|
        0 <= i < segs.len() ==> match #[trigger] param_name(segs[i]) {
            None => out[i] == segs[i],
            Some(n) => out[i] == params[find_param(params, n)->Some_0].1[0],
        }
}

pub proof fn lemma_expand_shape(params: Seq<(Seq<char>, Seq<Seq<char>>)>, segs: Seq<Seq<char>>)
    requires
        expand(params, segs) is Ok,
    ensures
        follows_segments(params, segs, expand(params, segs)->Ok_0.0),
    decreases segs.len(),
{
    if segs.len() > 0 {
        let p = segs.drop_last();
        lemma_expand_shape(params, p);
        let out = expand(params, segs)->Ok_0.0;
        let prev = expand(params, p)->Ok_0.0;
        assert(out.drop_last() == prev);
        assert forall|i: int| 0 <= i < segs.len() implies match #[trigger] param_name(segs[i]) {
            None => out[i] == segs[i],
            Some(n) => out[i] == params[find_param(params, n)->Some_0].1[0],
        } by {
            if i < segs.len() - 1 {
                assert(segs[i] == p[i]);
                assert(out[i] == prev[i]);
            }
        }
    }
}

/// Expanding a pattern keeps its segments in number and in order: a literal
/// segment stays as it is, and a placeholder becomes the single value of its
/// parameter.
pub proof fn lemma_segments_follow_pattern(
    pattern: Seq<char>,
    params: Seq<(Seq<char>, Seq<Seq<char>>)>,
)
    requires
        compose(pattern, params) is Ok,
    ensures
        follows_segments(params, pattern_segments(pattern), compose(pattern, params)->Ok_0.0),
{
    lemma_expand_shape(params, pattern_segments(pattern));
}

} // verus!
