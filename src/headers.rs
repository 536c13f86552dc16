use vstd::prelude::*;
use crate::path::pairs_view;

verus! {

/// Two characters that are equal up to ASCII case.
pub open spec fn same_char_ci(a: char, b: char) -> bool {
    a == b || ('A' <= a <= 'Z' && a as u32 + 32 == b as u32) || ('A' <= b <= 'Z' && b as u32 + 32
        == a as u32)
}

/// Two header names that are equal up to ASCII case.
pub open spec fn name_eq_ci(a: Seq<char>, b: Seq<char>) -> bool {
    a.len() == b.len() && forall|i: int| 0 <= i < a.len() ==> same_char_ci(#[trigger] a[i], b[i])
}

/// The headers that belong to one hop and are computed anew for each attempt.
pub open spec fn is_hop_by_hop(name: Seq<char>) -> bool {
    name_eq_ci(name, "connection"@) || name_eq_ci(name, "host"@) || name_eq_ci(
        name,
        "proxy-authorization"@,
    ) || name_eq_ci(name, "content-length"@) || name_eq_ci(name, "content-type"@)
}

/// The entries of `h` not named `name`, in order.
pub open spec fn without_name(h: Seq<(Seq<char>, Seq<char>)>, name: Seq<char>) -> Seq<
    (Seq<char>, Seq<char>),
>
    decreases h.len(),
{
    if h.len() == 0 {
        h
    } else if name_eq_ci(h.last().0, name) {
        without_name(h.drop_last(), name)
    } else {
        without_name(h.drop_last(), name).push(h.last())
    }
}

/// `h` with `name` set to the single value `value`.
pub open spec fn with_header(h: Seq<(Seq<char>, Seq<char>)>, name: Seq<char>, value: Seq<char>) -> Seq<
    (Seq<char>, Seq<char>),
> {
    without_name(h, name).push((name, value))
}

/// The entries of `h` that are not hop-by-hop, in order.
pub open spec fn strip_hop_by_hop(h: Seq<(Seq<char>, Seq<char>)>) -> Seq<(Seq<char>, Seq<char>)>
    decreases h.len(),
{
    if h.len() == 0 {
        h
    } else if is_hop_by_hop(h.last().0) {
        strip_hop_by_hop(h.drop_last())
    } else {
        strip_hop_by_hop(h.drop_last()).push(h.last())
    }
}

/// `h` with each entry of `extra` set in turn.
pub open spec fn with_all(h: Seq<(Seq<char>, Seq<char>)>, extra: Seq<(Seq<char>, Seq<char>)>) -> Seq<
    (Seq<char>, Seq<char>),
>
    decreases extra.len(),
{
    if extra.len() == 0 {
        h
    } else {
        let prev = with_all(h, extra.drop_last());
        with_header(prev, extra.last().0, extra.last().1)
    }
}

pub open spec fn digit_char(d: nat) -> char {
    seq!['0', '1', '2', '3', '4', '5', '6', '7', '8', '9'][d as int % 10]
}

/// The decimal digits of `n`, without leading zeros.
pub open spec fn decimal(n: nat) -> Seq<char>
    decreases n,
{
    if n < 10 {
        seq![digit_char(n)]
    } else {
        decimal(n / 10).push(digit_char(n % 10))
    }
}

/// What a request body declares of itself.
pub struct BodyInfo {
    pub content_type: String,
    pub content_length: Option<u64>,
}

/// The headers of one attempt: the caller's headers without the hop-by-hop
/// ones, then the trace headers, then the body's length and type.
pub open spec fn attempt_headers(
    caller: Seq<(Seq<char>, Seq<char>)>,
    trace: Seq<(Seq<char>, Seq<char>)>,
    body: Option<(Seq<char>, Option<u64>)>,
) -> Seq<(Seq<char>, Seq<char>)> {
    let base = with_all(strip_hop_by_hop(caller), trace);
    match body {
        None => base,
        Some((content_type, length)) => {
            let sized = match length {
                Some(n) => with_header(base, "content-length"@, decimal(n as nat)),
                None => base,
            };
            with_header(sized, "content-type"@, content_type)
        },
    }
}

/// Relies on `u64`'s `ToString`: the decimal digits, without sign or leading zeros.
#[verifier::external_body]
pub(crate) fn decimal_string(n: u64) -> (r: String)
    ensures
        r@ == decimal(n as nat),
{
    n.to_string()
}

/// Whether `a` and `b` are equal up to ASCII case.
pub fn eq_ignore_case(a: &str, b: &str) -> (r: bool)
    ensures
        r == name_eq_ci(a@, b@),
{
    let n = a.unicode_len();
    if n != b.unicode_len() {
        return false;
    }
    let mut i: usize = 0;
    while i < n
        invariant
            n == a@.len() == b@.len(),
            i <= n,
            forall|k: int| 0 <= k < i ==> same_char_ci(#[trigger] a@[k], b@[k]),
        decreases n - i,
    {
        let x = a.get_char(i);
        let y = b.get_char(i);
        let same = x == y || ('A' <= x && x <= 'Z' && x as u32 + 32 == y as u32) || ('A' <= y && y
            <= 'Z' && y as u32 + 32 == x as u32);
        if !same {
            assert(!same_char_ci(a@[i as int], b@[i as int]));
            return false;
        }
        i = i + 1;
    }
    true
}

/// Whether `name` is one of the hop-by-hop headers.
pub fn hop_by_hop(name: &str) -> (r: bool)
    ensures
        r == is_hop_by_hop(name@),
{
    eq_ignore_case(name, "connection") || eq_ignore_case(name, "host") || eq_ignore_case(
        name,
        "proxy-authorization",
    ) || eq_ignore_case(name, "content-length") || eq_ignore_case(name, "content-type")
}

/// Removes every entry named `name`.
pub fn remove_header(h: &mut Vec<(String, String)>, name: &str)
    ensures
        pairs_view(final(h)@) == without_name(pairs_view(old(h)@), name@),
{
    let ghost hv = pairs_view(h@);
    let mut kept: Vec<(String, String)> = Vec::new();
    let mut i: usize = 0;
    assert(hv.take(0) =~= Seq::<(Seq<char>, Seq<char>)>::empty());
    assert(pairs_view(kept@) =~= Seq::<(Seq<char>, Seq<char>)>::empty());
    while i < h.len()
        invariant
            hv == pairs_view(h@),
            i <= h@.len(),
            pairs_view(kept@) == without_name(hv.take(i as int), name@),
        decreases h@.len() - i,
    {
        assert(hv.take(i + 1).drop_last() =~= hv.take(i as int));
        if !eq_ignore_case(h[i].0.as_str(), name) {
            let ghost before = kept@;
            kept.push((h[i].0.clone(), h[i].1.clone()));
            assert(pairs_view(kept@) =~= pairs_view(before).push(hv[i as int]));
        }
        i = i + 1;
    }
    assert(hv.take(i as int) =~= hv);
    *h = kept;
}

/// Sets `name` to the single value `value`.
pub fn insert_header(h: &mut Vec<(String, String)>, name: &str, value: String)
    ensures
        pairs_view(final(h)@) == with_header(pairs_view(old(h)@), name@, value@),
{
    remove_header(h, name);
    let ghost before = h@;
    h.push((name.to_owned(), value));
    assert(pairs_view(h@) =~= pairs_view(before).push((name@, value@)));
}

/// Removes the hop-by-hop headers.
pub fn strip_headers(h: &Vec<(String, String)>) -> (r: Vec<(String, String)>)
    ensures
        pairs_view(r@) == strip_hop_by_hop(pairs_view(h@)),
{
    let ghost hv = pairs_view(h@);
    let mut kept: Vec<(String, String)> = Vec::new();
    let mut i: usize = 0;
    assert(hv.take(0) =~= Seq::<(Seq<char>, Seq<char>)>::empty());
    assert(pairs_view(kept@) =~= Seq::<(Seq<char>, Seq<char>)>::empty());
    while i < h.len()
        invariant
            hv == pairs_view(h@),
            i <= h@.len(),
            pairs_view(kept@) == strip_hop_by_hop(hv.take(i as int)),
        decreases h@.len() - i,
    {
        assert(hv.take(i + 1).drop_last() =~= hv.take(i as int));
        if !hop_by_hop(h[i].0.as_str()) {
            let ghost before = kept@;
            kept.push((h[i].0.clone(), h[i].1.clone()));
            assert(pairs_view(kept@) =~= pairs_view(before).push(hv[i as int]));
        }
        i = i + 1;
    }
    assert(hv.take(i as int) =~= hv);
    kept
}

/// Builds the headers of one attempt.
pub fn build_headers(
    caller: &Vec<(String, String)>,
    trace: &Vec<(String, String)>,
    body: &Option<BodyInfo>,
) -> (r: Vec<(String, String)>)
    ensures
        pairs_view(r@) == attempt_headers(
            pairs_view(caller@),
            pairs_view(trace@),
            match body {
                Some(b) => Some((b.content_type@, b.content_length)),
                None => None,
            },
        ),
{
    let mut h = strip_headers(caller);
    let ghost stripped = pairs_view(h@);
    let ghost tv = pairs_view(trace@);
    let mut i: usize = 0;
    assert(tv.take(0) =~= Seq::<(Seq<char>, Seq<char>)>::empty());
    while i < trace.len()
        invariant
            tv == pairs_view(trace@),
            i <= trace@.len(),
            pairs_view(h@) == with_all(stripped, tv.take(i as int)),
        decreases trace@.len() - i,
    {
        assert(tv.take(i + 1).drop_last() =~= tv.take(i as int));
        insert_header(&mut h, trace[i].0.as_str(), trace[i].1.clone());
        i = i + 1;
    }
    assert(tv.take(i as int) =~= tv);
    match body {
        Some(b) => {
            match b.content_length {
                Some(n) => insert_header(&mut h, "content-length", decimal_string(n)),
                None => {},
            }
            insert_header(&mut h, "content-type", b.content_type.clone());
        },
        None => {},
    }
    h
}

/// Stripping the hop-by-hop headers a second time changes nothing.
pub proof fn lemma_strip_idempotent(h: Seq<(Seq<char>, Seq<char>)>)
    ensures
        strip_hop_by_hop(strip_hop_by_hop(h)) == strip_hop_by_hop(h),
    decreases h.len(),
{
    if h.len() > 0 {
        lemma_strip_idempotent(h.drop_last());
        let s = strip_hop_by_hop(h.drop_last());
        if !is_hop_by_hop(h.last().0) {
            assert(s.push(h.last()).drop_last() =~= s);
        }
    }
}

/// The headers built from caller headers that were stripped already are
/// those built from the original caller headers.
pub proof fn lemma_prestripped_headers(
    caller: Seq<(Seq<char>, Seq<char>)>,
    trace: Seq<(Seq<char>, Seq<char>)>,
    body: Option<(Seq<char>, Option<u64>)>,
)
    ensures
        attempt_headers(strip_hop_by_hop(caller), trace, body) == attempt_headers(caller, trace, body),
{
    lemma_strip_idempotent(caller);
}

} // verus!
