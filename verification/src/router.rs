//! Route table: pattern parsing, specificity-ordered preparation, and
//! deterministic matching.
//!
//! A pattern such as `/users/:id` is parsed into segments; a segment
//! beginning with `:` is a named parameter, every other segment is a
//! literal matched case-sensitively. After all registrations, `prepare`
//! sorts each method's routes by specificity: at the first position
//! where two routes' segment kinds differ, the route with the literal
//! segment comes first; ties keep registration order. Matching scans a
//! method's prepared routes in order and returns the first route whose
//! segment count equals the path's and whose literals all agree,
//! together with the captured parameter values.

use vstd::prelude::*;

use crate::text::push_char;

verus! {

/// The HTTP methods the router distinguishes.
#[derive(PartialEq, Eq, Structural, Clone, Copy, Debug)]
pub enum HttpMethod {
    Get,
    Post,
    Put,
    Delete,
    Patch,
    Options,
    Head,
}

/// One `/`-delimited component of a route pattern.
pub enum PathSegment {
    /// A literal segment, matched case-sensitively.
    Static(String),
    /// A named parameter: matches any one segment and captures it.
    Param(String),
}

/// Why a registration is rejected.
#[derive(PartialEq, Eq, Structural, Clone, Copy, Debug)]
pub enum RouterError {
    /// The pattern cannot be parsed, or registration happened after
    /// `prepare`.
    InvalidPattern,
}

/// A registered route: a method, the parsed pattern, an optional name
/// for introspection, and the identifier of its handler.
pub struct Route {
    pub method: HttpMethod,
    pub pattern: String,
    pub segments: Vec<PathSegment>,
    pub name: Option<String>,
    pub handler: u64,
}

// ---------------------------------------------------------------------
// Path splitting
// ---------------------------------------------------------------------

/// Left-to-right splitting of `s` on `/`, with `cur` the piece read so
/// far and `done` the pieces already complete.
pub open spec fn split_acc(s: Seq<char>, cur: Seq<char>, done: Seq<Seq<char>>) -> Seq<Seq<char>>
    decreases s.len(),
{
    if s.len() == 0 {
        done.push(cur)
    } else if s[0] == '/' {
        split_acc(s.skip(1), Seq::empty(), done.push(cur))
    } else {
        split_acc(s.skip(1), cur.push(s[0]), done)
    }
}

/// The pieces of `s` between `/` separators; splitting the empty
/// sequence gives one empty piece.
pub open spec fn spec_split(s: Seq<char>) -> Seq<Seq<char>> {
    split_acc(s, Seq::empty(), Seq::empty())
}

/// The segments of a path: one leading `/` is dropped, then the rest is
/// split on `/`. A trailing `/` yields a final empty segment, so
/// `/users` and `/users/` have different segment sequences.
pub open spec fn spec_path_segments(path: Seq<char>) -> Seq<Seq<char>> {
    if path.len() > 0 && path[0] == '/' {
        spec_split(path.skip(1))
    } else {
        spec_split(path)
    }
}

/// Splits a path into its segments.
pub fn split_path(path: &str) -> (r: Vec<String>)
    ensures
        r@.map_values(|t: String| t@) == spec_path_segments(path@),
{
    let len = path.unicode_len();
    let mut i: usize = 0;
    if len > 0 && path.get_char(0) == '/' {
        i = 1;
    }
    let mut done: Vec<String> = Vec::new();
    let mut cur = String::new();
    proof {
        assert(done@.map_values(|t: String| t@) =~= Seq::<Seq<char>>::empty());
        assert(path@.skip(0) =~= path@);
    }
    while i < len
        invariant
            i <= len,
            len == path@.len(),
            split_acc(path@.skip(i as int), cur@, done@.map_values(|t: String| t@))
                == spec_path_segments(path@),
        decreases len - i,
    {
        let c = path.get_char(i);
        let ghost prev_done = done@.map_values(|t: String| t@);
        let ghost prev_cur = cur@;
        proof {
            assert(path@.skip(i as int)[0] == path@[i as int]);
            assert(path@.skip(i as int).skip(1) =~= path@.skip(i + 1));
        }
        if c == '/' {
            done.push(cur);
            cur = String::new();
            proof {
                assert(done@.map_values(|t: String| t@) =~= prev_done.push(prev_cur));
            }
        } else {
            push_char(&mut cur, c);
        }
        i = i + 1;
    }
    proof {
        assert(path@.skip(len as int) =~= Seq::<char>::empty());
    }
    done.push(cur);
    proof {
        assert(done@.map_values(|t: String| t@) == spec_path_segments(path@));
    }
    done
}

// ---------------------------------------------------------------------
// Pattern parsing
// ---------------------------------------------------------------------

/// Whether a segment text denotes a named parameter.
pub open spec fn seg_is_param_text(t: Seq<char>) -> bool {
    t.len() > 0 && t[0] == ':'
}

/// The segment value that a segment text parses to.
pub open spec fn spec_seg_for_text(seg: PathSegment, t: Seq<char>) -> bool {
    if seg_is_param_text(t) {
        match seg {
            PathSegment::Param(n) => n@ == t.skip(1),
            PathSegment::Static(_) => false,
        }
    } else {
        match seg {
            PathSegment::Static(l) => l@ == t,
            PathSegment::Param(_) => false,
        }
    }
}

/// The parsed segments correspond one-for-one to the segment texts.
pub open spec fn spec_segments_for(segs: Seq<PathSegment>, texts: Seq<Seq<char>>) -> bool {
    &&& segs.len() == texts.len()
    &&& forall|k: int| 0 <= k < texts.len() ==> spec_seg_for_text(#[trigger] segs[k], texts[k])
}

/// The parameter name of a segment, if it has one.
pub open spec fn seg_param_name(seg: PathSegment) -> Option<Seq<char>> {
    match seg {
        PathSegment::Param(n) => Some(n@),
        PathSegment::Static(_) => None,
    }
}

/// No two parameter segments share a name.
pub open spec fn spec_params_unique(segs: Seq<PathSegment>) -> bool {
    forall|i: int, j: int|
        #![trigger seg_param_name(segs[i]), seg_param_name(segs[j])]
        0 <= i < j < segs.len() ==> !(seg_param_name(segs[i]) is Some && seg_param_name(segs[i])
            == seg_param_name(segs[j]))
}

/// A pattern is well-formed when it begins with `/` and no parameter
/// name repeats.
pub open spec fn spec_pattern_ok(p: Seq<char>) -> bool {
    &&& p.len() > 0
    &&& p[0] == '/'
    &&& (forall|i: int, j: int|
        #![trigger spec_path_segments(p)[i], spec_path_segments(p)[j]]
        0 <= i < j < spec_path_segments(p).len() ==> !(seg_is_param_text(
            spec_path_segments(p)[i],
        ) && seg_is_param_text(spec_path_segments(p)[j]) && spec_path_segments(p)[i].skip(1)
            == spec_path_segments(p)[j].skip(1)))
}

/// Parses a route pattern into segments.
///
/// Fails with `InvalidPattern` exactly when the pattern does not begin
/// with `/` or declares the same parameter name twice.
pub fn parse_pattern(pattern: &str) -> (r: Result<Vec<PathSegment>, RouterError>)
    ensures
        match r {
            Ok(segs) => {
                &&& spec_pattern_ok(pattern@)
                &&& spec_segments_for(segs@, spec_path_segments(pattern@))
                &&& spec_params_unique(segs@)
            },
            Err(e) => !spec_pattern_ok(pattern@) && e == RouterError::InvalidPattern,
        },
{
    let len = pattern.unicode_len();
    if len == 0 || pattern.get_char(0) != '/' {
        return Err(RouterError::InvalidPattern);
    }
    let texts = split_path(pattern);
    let ghost tview = texts@.map_values(|t: String| t@);
    let mut segs: Vec<PathSegment> = Vec::new();
    let mut k: usize = 0;
    while k < texts.len()
        invariant
            k <= texts.len(),
            tview == texts@.map_values(|t: String| t@),
            tview == spec_path_segments(pattern@),
            segs@.len() == k,
            forall|m: int| 0 <= m < k ==> spec_seg_for_text(#[trigger] segs@[m], tview[m]),
        decreases texts.len() - k,
    {
        let t = &texts[k];
        let tlen = t.as_str().unicode_len();
        if tlen > 0 && t.as_str().get_char(0) == ':' {
            let name = t.as_str().substring_char(1, tlen).to_owned();
            proof {
                assert(name@ =~= tview[k as int].skip(1));
            }
            segs.push(PathSegment::Param(name));
        } else {
            segs.push(PathSegment::Static(t.clone()));
        }
        k = k + 1;
    }
    // Reject a duplicated parameter name.
    let n = segs.len();
    let mut i: usize = 0;
    while i < n
        invariant
            n == segs@.len(),
            i <= n,
            tview == spec_path_segments(pattern@),
            spec_segments_for(segs@, tview),
            forall|a: int, b: int|
                #![trigger seg_param_name(segs@[a]), seg_param_name(segs@[b])]
                0 <= a < b < n && a < i ==> !(seg_param_name(segs@[a]) is Some && seg_param_name(
                    segs@[a],
                ) == seg_param_name(segs@[b])),
        decreases n - i,
    {
        let mut j: usize = i + 1;
        while j < n
            invariant
                n == segs@.len(),
                i < n,
                i < j,
                tview == spec_path_segments(pattern@),
                spec_segments_for(segs@, tview),
                forall|b: int|
                    #![trigger seg_param_name(segs@[b])]
                    i < b < j ==> !(seg_param_name(segs@[i as int]) is Some && seg_param_name(
                        segs@[i as int],
                    ) == seg_param_name(segs@[b])),
            decreases n - j,
        {
            let dup = match (&segs[i], &segs[j]) {
                (PathSegment::Param(a), PathSegment::Param(b)) => a.eq(b),
                _ => false,
            };
            if dup {
                proof {
                    let gi = i as int;
                    let gj = j as int;
                    assert(seg_is_param_text(tview[gi]) && seg_is_param_text(tview[gj])
                        && tview[gi].skip(1) == tview[gj].skip(1));
                    assert(!spec_pattern_ok(pattern@));
                }
                return Err(RouterError::InvalidPattern);
            }
            j = j + 1;
        }
        i = i + 1;
    }
    proof {
        assert forall|a: int, b: int|
            0 <= a < b < spec_path_segments(pattern@).len() implies !(seg_is_param_text(
            #[trigger] spec_path_segments(pattern@)[a],
        ) && seg_is_param_text(#[trigger] spec_path_segments(pattern@)[b]) && spec_path_segments(
            pattern@,
        )[a].skip(1) == spec_path_segments(pattern@)[b].skip(1)) by {
            assert(spec_seg_for_text(segs@[a], tview[a]));
            assert(spec_seg_for_text(segs@[b], tview[b]));
            assert(!(seg_param_name(segs@[a]) is Some && seg_param_name(segs@[a])
                == seg_param_name(segs@[b])));
        }
    }
    Ok(segs)
}

// ---------------------------------------------------------------------
// Specificity
// ---------------------------------------------------------------------

/// Whether a segment is a literal.
pub open spec fn seg_static(seg: PathSegment) -> bool {
    match seg {
        PathSegment::Static(_) => true,
        PathSegment::Param(_) => false,
    }
}

/// The kind sequence of a route's segments: `true` for a literal,
/// `false` for a parameter.
pub open spec fn spec_kinds(segs: Seq<PathSegment>) -> Seq<bool> {
    Seq::new(segs.len(), |k: int| seg_static(segs[k]))
}

/// Specificity order on kind sequences: `a` sorts no later than `b`.
///
/// At the first position where the kinds differ, the literal (`true`)
/// side sorts first. When one sequence is a prefix of the other, the
/// shorter sorts first.
pub open spec fn prio_le(a: Seq<bool>, b: Seq<bool>) -> bool
    decreases a.len(),
{
    if a.len() == 0 {
        true
    } else if b.len() == 0 {
        false
    } else if a[0] == b[0] {
        prio_le(a.skip(1), b.skip(1))
    } else {
        a[0]
    }
}

/// The specificity order is total.
pub proof fn lemma_prio_le_total(a: Seq<bool>, b: Seq<bool>)
    ensures
        prio_le(a, b) || prio_le(b, a),
    decreases a.len(),
{
    if a.len() > 0 && b.len() > 0 && a[0] == b[0] {
        lemma_prio_le_total(a.skip(1), b.skip(1));
    }
}

/// The specificity order is reflexive.
pub proof fn lemma_prio_le_refl(a: Seq<bool>)
    ensures
        prio_le(a, a),
    decreases a.len(),
{
    if a.len() > 0 {
        lemma_prio_le_refl(a.skip(1));
    }
}

/// The specificity order is transitive.
pub proof fn lemma_prio_le_trans(a: Seq<bool>, b: Seq<bool>, c: Seq<bool>)
    requires
        prio_le(a, b),
        prio_le(b, c),
    ensures
        prio_le(a, c),
    decreases a.len(),
{
    if a.len() > 0 && b.len() > 0 && c.len() > 0 {
        if a[0] == b[0] && b[0] == c[0] {
            lemma_prio_le_trans(a.skip(1), b.skip(1), c.skip(1));
        }
    }
}

/// Dropping a common prefix does not change the order.
proof fn lemma_prio_le_skip(a: Seq<bool>, b: Seq<bool>, k: int)
    requires
        0 <= k <= a.len(),
        k <= b.len(),
        forall|m: int| 0 <= m < k ==> a[m] == b[m],
    ensures
        prio_le(a, b) == prio_le(a.skip(k), b.skip(k)),
    decreases k,
{
    if k > 0 {
        assert(a[0] == b[0]);
        lemma_prio_le_skip(a.skip(1), b.skip(1), k - 1);
        assert(a.skip(1).skip(k - 1) =~= a.skip(k));
        assert(b.skip(1).skip(k - 1) =~= b.skip(k));
    } else {
        assert(a.skip(0) =~= a);
        assert(b.skip(0) =~= b);
    }
}

/// The kind sequence of one route.
pub open spec fn route_kinds(r: &Route) -> Seq<bool> {
    spec_kinds(r.segments@)
}

/// Compares two routes by specificity.
fn route_le(a: &Route, b: &Route) -> (r: bool)
    ensures
        r == prio_le(route_kinds(a), route_kinds(b)),
{
    let alen = a.segments.len();
    let blen = b.segments.len();
    let mut k: usize = 0;
    while k < alen && k < blen
        invariant
            k <= alen,
            k <= blen,
            alen == a.segments@.len(),
            blen == b.segments@.len(),
            forall|m: int| 0 <= m < k ==> spec_kinds(a.segments@)[m] == spec_kinds(b.segments@)[m],
        decreases alen - k,
    {
        let ka = match &a.segments[k] {
            PathSegment::Static(_) => true,
            PathSegment::Param(_) => false,
        };
        let kb = match &b.segments[k] {
            PathSegment::Static(_) => true,
            PathSegment::Param(_) => false,
        };
        if ka != kb {
            proof {
                lemma_prio_le_skip(route_kinds(a), route_kinds(b), k as int);
                assert(route_kinds(a).skip(k as int)[0] == ka);
                assert(route_kinds(b).skip(k as int)[0] == kb);
            }
            return ka;
        }
        k = k + 1;
    }
    proof {
        lemma_prio_le_skip(route_kinds(a), route_kinds(b), k as int);
    }
    alen <= blen
}

// ---------------------------------------------------------------------
// Sorting by specificity
// ---------------------------------------------------------------------

/// Inserts a route into a sorted sequence, after every route that
/// sorts no later: ties keep the earlier registration in front.
pub open spec fn spec_insert_route(sorted: Seq<Route>, r: Route) -> Seq<Route>
    decreases sorted.len(),
{
    if sorted.len() == 0 {
        seq![r]
    } else if prio_le(route_kinds(&sorted[0]), route_kinds(&r)) {
        seq![sorted[0]] + spec_insert_route(sorted.skip(1), r)
    } else {
        seq![r] + sorted
    }
}

/// Stable insertion sort by specificity.
pub open spec fn spec_sort_routes(rs: Seq<Route>) -> Seq<Route>
    decreases rs.len(),
{
    if rs.len() == 0 {
        Seq::empty()
    } else {
        spec_insert_route(spec_sort_routes(rs.drop_last()), rs.last())
    }
}

/// Inserting at the first position whose element sorts later than `r`
/// is what `spec_insert_route` does.
proof fn lemma_insert_at(sorted: Seq<Route>, r: Route, j: int)
    requires
        0 <= j <= sorted.len(),
        forall|m: int| 0 <= m < j ==> prio_le(route_kinds(&sorted[m]), route_kinds(&r)),
        j < sorted.len() ==> !prio_le(route_kinds(&sorted[j]), route_kinds(&r)),
    ensures
        spec_insert_route(sorted, r) == sorted.insert(j, r),
    decreases j,
{
    if j == 0 {
        if sorted.len() == 0 {
            assert(spec_insert_route(sorted, r) =~= sorted.insert(0, r));
        } else {
            assert(spec_insert_route(sorted, r) =~= sorted.insert(0, r));
        }
    } else {
        lemma_insert_at(sorted.skip(1), r, j - 1);
        assert(spec_insert_route(sorted, r) == seq![sorted[0]] + spec_insert_route(
            sorted.skip(1),
            r,
        ));
        assert(seq![sorted[0]] + sorted.skip(1).insert(j - 1, r) =~= sorted.insert(j, r));
    }
}

/// Sorts a route list by specificity, stably.
fn sort_routes(v: Vec<Route>) -> (r: Vec<Route>)
    ensures
        r@ == spec_sort_routes(v@),
{
    let ghost orig = v@;
    let mut input = v;
    let mut out: Vec<Route> = Vec::new();
    proof {
        assert(orig.take(0) =~= Seq::<Route>::empty());
        assert(orig.skip(0) =~= orig);
    }
    while input.len() > 0
        invariant
            input@.len() <= orig.len(),
            input@ == orig.skip(orig.len() - input@.len()),
            out@ == spec_sort_routes(orig.take(orig.len() - input@.len())),
        decreases input@.len(),
    {
        let ghost done = (orig.len() - input@.len()) as int;
        let cur = input.remove(0);
        proof {
            assert(input@ =~= orig.skip(done + 1));
            assert(cur == orig[done]);
        }
        let mut j: usize = 0;
        while j < out.len() && route_le(&out[j], &cur)
            invariant
                j <= out@.len(),
                forall|m: int| 0 <= m < j ==> prio_le(route_kinds(&out@[m]), route_kinds(&cur)),
            decreases out@.len() - j,
        {
            j = j + 1;
        }
        proof {
            lemma_insert_at(out@, cur, j as int);
            let t = orig.take(done + 1);
            assert(t.drop_last() =~= orig.take(done));
            assert(t.last() == orig[done]);
        }
        out.insert(j, cur);
    }
    proof {
        assert(orig.take(orig.len() as int) =~= orig);
    }
    out
}

/// Where `spec_insert_route` places the new route: right after every
/// route that sorts no later.
spec fn insert_pos(sorted: Seq<Route>, r: Route) -> int
    decreases sorted.len(),
{
    if sorted.len() == 0 {
        0
    } else if prio_le(route_kinds(&sorted[0]), route_kinds(&r)) {
        1 + insert_pos(sorted.skip(1), r)
    } else {
        0
    }
}

proof fn lemma_insert_route_shape(sorted: Seq<Route>, r: Route)
    ensures
        0 <= insert_pos(sorted, r) <= sorted.len(),
        spec_insert_route(sorted, r) == sorted.insert(insert_pos(sorted, r), r),
        forall|m: int|
            0 <= m < insert_pos(sorted, r) ==> prio_le(
                route_kinds(&sorted[m]),
                route_kinds(&r),
            ),
        insert_pos(sorted, r) < sorted.len() ==> !prio_le(
            route_kinds(&sorted[insert_pos(sorted, r)]),
            route_kinds(&r),
        ),
    decreases sorted.len(),
{
    if sorted.len() == 0 {
        assert(spec_insert_route(sorted, r) =~= sorted.insert(0, r));
    } else if prio_le(route_kinds(&sorted[0]), route_kinds(&r)) {
        lemma_insert_route_shape(sorted.skip(1), r);
        let p = insert_pos(sorted, r);
        assert(seq![sorted[0]] + sorted.skip(1).insert(p - 1, r) =~= sorted.insert(p, r));
        assert forall|m: int| 0 <= m < p implies prio_le(
            route_kinds(&sorted[m]),
            route_kinds(&r),
        ) by {
            if m > 0 {
                assert(sorted[m] == sorted.skip(1)[m - 1]);
            }
        }
        if p < sorted.len() {
            assert(sorted[p] == sorted.skip(1)[p - 1]);
        }
    } else {
        assert(spec_insert_route(sorted, r) =~= sorted.insert(0, r));
    }
}

/// A route list is sorted when no route sorts strictly before an
/// earlier one.
pub open spec fn routes_sorted(rs: Seq<Route>) -> bool {
    forall|i: int, j: int|
        #![trigger rs[i], rs[j]]
        0 <= i <= j < rs.len() ==> prio_le(route_kinds(&rs[i]), route_kinds(&rs[j]))
}

proof fn lemma_insert_route_sorted(sorted: Seq<Route>, r: Route)
    requires
        routes_sorted(sorted),
    ensures
        routes_sorted(spec_insert_route(sorted, r)),
{
    lemma_insert_route_shape(sorted, r);
    let p = insert_pos(sorted, r);
    let out = sorted.insert(p, r);
    assert forall|i: int, j: int|
        0 <= i <= j < out.len() implies prio_le(route_kinds(&#[trigger] out[i]), route_kinds(
        &#[trigger] out[j],
    )) by {
        lemma_prio_le_refl(route_kinds(&r));
        if i < p {
            assert(out[i] == sorted[i]);
        } else if i > p {
            assert(out[i] == sorted[i - 1]);
        }
        if j < p {
            assert(out[j] == sorted[j]);
        } else if j > p {
            assert(out[j] == sorted[j - 1]);
        }
        if p < sorted.len() {
            lemma_prio_le_total(route_kinds(&sorted[p]), route_kinds(&r));
        }
        if i == p && j > p {
            // the new route against a later element of the sorted input
            assert(prio_le(route_kinds(&r), route_kinds(&sorted[p])));
            if j - 1 > p {
                lemma_prio_le_trans(
                    route_kinds(&r),
                    route_kinds(&sorted[p]),
                    route_kinds(&sorted[j - 1]),
                );
            }
        }
    }
}

/// The prepared order of a method's routes is sorted by specificity.
pub proof fn lemma_sort_routes_sorted(rs: Seq<Route>)
    ensures
        routes_sorted(spec_sort_routes(rs)),
    decreases rs.len(),
{
    if rs.len() > 0 {
        lemma_sort_routes_sorted(rs.drop_last());
        lemma_insert_route_sorted(spec_sort_routes(rs.drop_last()), rs.last());
    }
}

/// Sorting keeps exactly the registered routes: it is a permutation.
pub proof fn lemma_sort_routes_multiset(rs: Seq<Route>)
    ensures
        spec_sort_routes(rs).to_multiset() == rs.to_multiset(),
    decreases rs.len(),
{
    broadcast use vstd::seq_lib::group_to_multiset_ensures;

    if rs.len() > 0 {
        lemma_sort_routes_multiset(rs.drop_last());
        let s = spec_sort_routes(rs.drop_last());
        let r = rs.last();
        lemma_insert_route_shape(s, r);
        let p = insert_pos(s, r);
        assert(s.insert(p, r) =~= s.take(p) + seq![r] + s.skip(p));
        assert(s.take(p) + seq![r] + s.skip(p) =~= s.take(p) + (seq![r] + s.skip(p)));
        vstd::seq_lib::lemma_multiset_commutative(s.take(p), seq![r] + s.skip(p));
        vstd::seq_lib::lemma_multiset_commutative(seq![r], s.skip(p));
        vstd::seq_lib::lemma_multiset_commutative(s.take(p), s.skip(p));
        assert(s.take(p) + s.skip(p) =~= s);
        assert(rs.drop_last().push(r) =~= rs);
    }
}

// ---------------------------------------------------------------------
// Matching
// ---------------------------------------------------------------------

/// Whether one pattern segment accepts one path segment: a literal
/// must equal it, a parameter accepts anything.
pub open spec fn spec_seg_matches(seg: PathSegment, t: Seq<char>) -> bool {
    match seg {
        PathSegment::Static(l) => l@ == t,
        PathSegment::Param(_) => true,
    }
}

/// Whether a route accepts a path: same segment count, and every
/// segment accepts its counterpart.
pub open spec fn spec_route_matches(r: &Route, texts: Seq<Seq<char>>) -> bool {
    &&& r.segments@.len() == texts.len()
    &&& forall|k: int| 0 <= k < texts.len() ==> spec_seg_matches(#[trigger] r.segments@[k], texts[k])
}

/// The index of the first route in `rs` that accepts the path, or -1.
pub open spec fn spec_first_match(rs: Seq<Route>, texts: Seq<Seq<char>>) -> int
    decreases rs.len(),
{
    if rs.len() == 0 {
        -1
    } else if spec_route_matches(&rs[0], texts) {
        0
    } else {
        let m = spec_first_match(rs.skip(1), texts);
        if m < 0 {
            -1
        } else {
            m + 1
        }
    }
}

/// `spec_first_match` returns -1 exactly when nothing matches, and
/// otherwise the least matching index.
pub proof fn lemma_first_match(rs: Seq<Route>, texts: Seq<Seq<char>>)
    ensures
        spec_first_match(rs, texts) == -1 ==> forall|j: int|
            0 <= j < rs.len() ==> !spec_route_matches(&#[trigger] rs[j], texts),
        spec_first_match(rs, texts) != -1 ==> {
            let m = spec_first_match(rs, texts);
            &&& 0 <= m < rs.len()
            &&& spec_route_matches(&rs[m], texts)
            &&& forall|j: int| 0 <= j < m ==> !spec_route_matches(&#[trigger] rs[j], texts)
        },
    decreases rs.len(),
{
    if rs.len() > 0 && !spec_route_matches(&rs[0], texts) {
        lemma_first_match(rs.skip(1), texts);
        assert forall|j: int| 1 <= j < rs.len() implies rs[j] == rs.skip(1)[j - 1] by {}
        let m0 = spec_first_match(rs.skip(1), texts);
        if m0 == -1 {
            assert forall|j: int| 0 <= j < rs.len() implies !spec_route_matches(
                &#[trigger] rs[j],
                texts,
            ) by {
                if j > 0 {
                    assert(!spec_route_matches(&rs.skip(1)[j - 1], texts));
                }
            }
        } else {
            assert(rs[m0 + 1] == rs.skip(1)[m0]);
            assert forall|j: int| 0 <= j < m0 + 1 implies !spec_route_matches(
                &#[trigger] rs[j],
                texts,
            ) by {
                if j > 0 {
                    assert(!spec_route_matches(&rs.skip(1)[j - 1], texts));
                }
            }
        }
    }
}

/// If `rs[i]` matches and nothing earlier does, the first match is `i`.
proof fn lemma_first_match_at(rs: Seq<Route>, texts: Seq<Seq<char>>, i: int)
    requires
        0 <= i < rs.len(),
        spec_route_matches(&rs[i], texts),
        forall|j: int| 0 <= j < i ==> !spec_route_matches(&#[trigger] rs[j], texts),
    ensures
        spec_first_match(rs, texts) == i,
{
    lemma_first_match(rs, texts);
    let m = spec_first_match(rs, texts);
    if m == -1 {
        assert(!spec_route_matches(&rs[i], texts));
    } else if m < i {
        assert(!spec_route_matches(&rs[m], texts));
    } else if m > i {
        assert(!spec_route_matches(&rs[i], texts));
    }
}

/// The parameters captured by the first `k` segments of a route
/// against a path, in segment order.
pub open spec fn spec_captures_upto(
    segs: Seq<PathSegment>,
    texts: Seq<Seq<char>>,
    k: int,
) -> Seq<(Seq<char>, Seq<char>)>
    decreases k,
{
    if k <= 0 {
        Seq::empty()
    } else {
        let rest = spec_captures_upto(segs, texts, k - 1);
        match segs[k - 1] {
            PathSegment::Param(n) => rest.push((n@, texts[k - 1])),
            PathSegment::Static(_) => rest,
        }
    }
}

/// All parameters a route captures from a path.
pub open spec fn spec_captures(segs: Seq<PathSegment>, texts: Seq<Seq<char>>) -> Seq<
    (Seq<char>, Seq<char>),
> {
    spec_captures_upto(segs, texts, segs.len() as int)
}

/// The view of a captured-parameter list.
pub open spec fn spec_pairs_view(ps: Seq<(String, String)>) -> Seq<(Seq<char>, Seq<char>)> {
    ps.map_values(|p: (String, String)| (p.0@, p.1@))
}

/// Tries one route against the split path; on success returns the
/// captured parameters, in segment order.
fn try_match_route(r: &Route, texts: &Vec<String>) -> (res: Option<Vec<(String, String)>>)
    ensures
        match res {
            Some(params) => spec_route_matches(r, texts@.map_values(|t: String| t@))
                && spec_pairs_view(params@) == spec_captures(
                r.segments@,
                texts@.map_values(|t: String| t@),
            ),
            None => !spec_route_matches(r, texts@.map_values(|t: String| t@)),
        },
{
    let ghost tview = texts@.map_values(|t: String| t@);
    if r.segments.len() != texts.len() {
        return None;
    }
    let mut params: Vec<(String, String)> = Vec::new();
    let mut k: usize = 0;
    proof {
        assert(spec_pairs_view(params@) =~= Seq::<(Seq<char>, Seq<char>)>::empty());
    }
    while k < texts.len()
        invariant
            k <= texts.len(),
            tview == texts@.map_values(|t: String| t@),
            r.segments@.len() == texts@.len(),
            forall|m: int| 0 <= m < k ==> spec_seg_matches(#[trigger] r.segments@[m], tview[m]),
            spec_pairs_view(params@) == spec_captures_upto(r.segments@, tview, k as int),
        decreases texts.len() - k,
    {
        let ghost prev = spec_pairs_view(params@);
        match &r.segments[k] {
            PathSegment::Static(l) => {
                if !l.eq(&texts[k]) {
                    return None;
                }
            },
            PathSegment::Param(n) => {
                params.push((n.clone(), texts[k].clone()));
                proof {
                    assert(spec_pairs_view(params@) =~= prev.push((n@, tview[k as int])));
                }
            },
        }
        k = k + 1;
    }
    Some(params)
}

// ---------------------------------------------------------------------
// The route table
// ---------------------------------------------------------------------

/// A successful match: the matched route's handler identifier and the
/// captured parameters, in segment order.
pub struct RouteMatch {
    pub handler: u64,
    pub params: Vec<(String, String)>,
}

/// Routes grouped by method. Registration appends to the method's
/// list; `prepare` sorts each list by specificity, once.
pub struct RouteTable {
    pub buckets: Vec<(HttpMethod, Vec<Route>)>,
    pub prepared: bool,
}

/// The routes registered under a method: those of the first bucket
/// carrying it.
pub open spec fn spec_routes_for_in(bs: Seq<(HttpMethod, Vec<Route>)>, m: HttpMethod) -> Seq<
    Route,
>
    decreases bs.len(),
{
    if bs.len() == 0 {
        Seq::empty()
    } else if bs[0].0 == m {
        bs[0].1@
    } else {
        spec_routes_for_in(bs.skip(1), m)
    }
}

/// The routes a table holds for a method, in their current order.
pub open spec fn spec_routes_for(t: RouteTable, m: HttpMethod) -> Seq<Route> {
    spec_routes_for_in(t.buckets@, m)
}

/// Table well-formedness: one bucket per method, and once prepared,
/// every method's routes sorted by specificity.
pub open spec fn table_ok(t: RouteTable) -> bool {
    &&& forall|i: int, j: int|
        0 <= i < j < t.buckets@.len() ==> (#[trigger] t.buckets@[i]).0 != (
        #[trigger] t.buckets@[j]).0
    &&& t.prepared ==> forall|m: HttpMethod| routes_sorted(#[trigger] spec_routes_for(t, m))
}

proof fn lemma_routes_for_absent(bs: Seq<(HttpMethod, Vec<Route>)>, m: HttpMethod)
    requires
        forall|i: int| 0 <= i < bs.len() ==> (#[trigger] bs[i]).0 != m,
    ensures
        spec_routes_for_in(bs, m) == Seq::<Route>::empty(),
    decreases bs.len(),
{
    if bs.len() > 0 {
        assert forall|i: int| 0 <= i < bs.skip(1).len() implies (#[trigger] bs.skip(1)[i]).0
            != m by {
            assert(bs.skip(1)[i] == bs[i + 1]);
        }
        lemma_routes_for_absent(bs.skip(1), m);
    }
}

proof fn lemma_routes_for_first(bs: Seq<(HttpMethod, Vec<Route>)>, m: HttpMethod, i: int)
    requires
        0 <= i < bs.len(),
        bs[i].0 == m,
        forall|j: int| 0 <= j < i ==> (#[trigger] bs[j]).0 != m,
    ensures
        spec_routes_for_in(bs, m) == bs[i].1@,
    decreases i,
{
    if i > 0 {
        assert(bs.skip(1)[i - 1] == bs[i]);
        assert forall|j: int| 0 <= j < i - 1 implies (#[trigger] bs.skip(1)[j]).0 != m by {
            assert(bs.skip(1)[j] == bs[j + 1]);
        }
        lemma_routes_for_first(bs.skip(1), m, i - 1);
    }
}

proof fn lemma_routes_for_update(
    bs: Seq<(HttpMethod, Vec<Route>)>,
    i: int,
    b2: (HttpMethod, Vec<Route>),
)
    requires
        0 <= i < bs.len(),
        b2.0 == bs[i].0,
        forall|j: int| 0 <= j < i ==> (#[trigger] bs[j]).0 != bs[i].0,
    ensures
        spec_routes_for_in(bs.update(i, b2), b2.0) == b2.1@,
        forall|m2: HttpMethod|
            m2 != b2.0 ==> #[trigger] spec_routes_for_in(bs.update(i, b2), m2)
                == spec_routes_for_in(bs, m2),
    decreases i,
{
    let up = bs.update(i, b2);
    if i == 0 {
        assert(up[0] == b2);
        assert(up.skip(1) =~= bs.skip(1));
        assert forall|m2: HttpMethod| m2 != b2.0 implies #[trigger] spec_routes_for_in(up, m2)
            == spec_routes_for_in(bs, m2) by {
            assert(spec_routes_for_in(up, m2) == spec_routes_for_in(up.skip(1), m2));
            assert(spec_routes_for_in(bs, m2) == spec_routes_for_in(bs.skip(1), m2));
        }
    } else {
        assert forall|j: int| 0 <= j < i - 1 implies (#[trigger] bs.skip(1)[j]).0 != bs.skip(
            1,
        )[i - 1].0 by {
            assert(bs.skip(1)[j] == bs[j + 1]);
            assert(bs.skip(1)[i - 1] == bs[i]);
        }
        assert(bs.skip(1)[i - 1] == bs[i]);
        lemma_routes_for_update(bs.skip(1), i - 1, b2);
        assert(up.skip(1) =~= bs.skip(1).update(i - 1, b2));
        assert(up[0] == bs[0]);
        assert(bs[0].0 != b2.0);
        assert(spec_routes_for_in(up, b2.0) == spec_routes_for_in(up.skip(1), b2.0));
        assert forall|m2: HttpMethod| m2 != b2.0 implies #[trigger] spec_routes_for_in(up, m2)
            == spec_routes_for_in(bs, m2) by {
            if m2 == bs[0].0 {
                assert(spec_routes_for_in(up, m2) == up[0].1@);
                assert(spec_routes_for_in(bs, m2) == bs[0].1@);
            } else {
                assert(spec_routes_for_in(up, m2) == spec_routes_for_in(up.skip(1), m2));
                assert(spec_routes_for_in(bs, m2) == spec_routes_for_in(bs.skip(1), m2));
            }
        }
    }
}

proof fn lemma_routes_for_push(bs: Seq<(HttpMethod, Vec<Route>)>, b: (HttpMethod, Vec<Route>))
    requires
        forall|i: int| 0 <= i < bs.len() ==> (#[trigger] bs[i]).0 != b.0,
    ensures
        spec_routes_for_in(bs.push(b), b.0) == b.1@,
        forall|m2: HttpMethod|
            m2 != b.0 ==> #[trigger] spec_routes_for_in(bs.push(b), m2) == spec_routes_for_in(
                bs,
                m2,
            ),
    decreases bs.len(),
{
    let pu = bs.push(b);
    if bs.len() == 0 {
        assert(pu[0] == b);
        assert(pu.skip(1) =~= Seq::<(HttpMethod, Vec<Route>)>::empty());
        assert forall|m2: HttpMethod| m2 != b.0 implies #[trigger] spec_routes_for_in(pu, m2)
            == spec_routes_for_in(bs, m2) by {
            assert(spec_routes_for_in(pu, m2) == spec_routes_for_in(pu.skip(1), m2));
        }
    } else {
        assert forall|i: int| 0 <= i < bs.skip(1).len() implies (#[trigger] bs.skip(1)[i]).0
            != b.0 by {
            assert(bs.skip(1)[i] == bs[i + 1]);
        }
        lemma_routes_for_push(bs.skip(1), b);
        assert(pu[0] == bs[0]);
        assert(pu.skip(1) =~= bs.skip(1).push(b));
        assert(bs[0].0 != b.0);
        assert(spec_routes_for_in(pu, b.0) == spec_routes_for_in(pu.skip(1), b.0));
        assert forall|m2: HttpMethod| m2 != b.0 implies #[trigger] spec_routes_for_in(pu, m2)
            == spec_routes_for_in(bs, m2) by {
            if m2 == bs[0].0 {
                assert(spec_routes_for_in(pu, m2) == pu[0].1@);
                assert(spec_routes_for_in(bs, m2) == bs[0].1@);
            } else {
                assert(spec_routes_for_in(pu, m2) == spec_routes_for_in(pu.skip(1), m2));
                assert(spec_routes_for_in(bs, m2) == spec_routes_for_in(bs.skip(1), m2));
            }
        }
    }
}

/// The fields a freshly registered route carries.
pub open spec fn spec_new_route(
    r: Route,
    method: HttpMethod,
    pattern: Seq<char>,
    handler: u64,
    name: Option<String>,
) -> bool {
    &&& r.method == method
    &&& r.pattern@ == pattern
    &&& r.handler == handler
    &&& (match (r.name, name) {
        (Option::None, Option::None) => true,
        (Option::Some(a), Option::Some(b)) => a@ == b@,
        _ => false,
    })
    &&& spec_segments_for(r.segments@, spec_path_segments(pattern))
    &&& spec_params_unique(r.segments@)
}

impl RouteTable {
    /// An empty, unprepared table.
    pub fn new() -> (r: RouteTable)
        ensures
            table_ok(r),
            !r.prepared,
            forall|m: HttpMethod| #[trigger] spec_routes_for(r, m) == Seq::<Route>::empty(),
    {
        let t = RouteTable { buckets: Vec::new(), prepared: false };
        proof {
            assert forall|m: HttpMethod| #[trigger]
                spec_routes_for(t, m) == Seq::<Route>::empty() by {
                lemma_routes_for_absent(t.buckets@, m);
            }
        }
        t
    }

    fn find_bucket(&self, method: HttpMethod) -> (r: Option<usize>)
        ensures
            match r {
                Some(i) => i < self.buckets@.len() && self.buckets@[i as int].0 == method
                    && forall|j: int|
                    0 <= j < i ==> (#[trigger] self.buckets@[j]).0 != method,
                None => forall|j: int|
                    0 <= j < self.buckets@.len() ==> (#[trigger] self.buckets@[j]).0 != method,
            },
    {
        let n = self.buckets.len();
        let mut i: usize = 0;
        while i < n
            invariant
                i <= n,
                n == self.buckets@.len(),
                forall|j: int| 0 <= j < i ==> (#[trigger] self.buckets@[j]).0 != method,
            decreases n - i,
        {
            if self.buckets[i].0 == method {
                return Some(i);
            }
            i = i + 1;
        }
        None
    }

    /// Registers a route.
    ///
    /// Fails with `InvalidPattern` exactly when the pattern is not
    /// well-formed or the table is already prepared; otherwise the
    /// route is appended to its method's list and every other
    /// method's list is untouched.
    pub fn register(
        &mut self,
        method: HttpMethod,
        pattern: &str,
        handler: u64,
        name: Option<String>,
    ) -> (r: Result<(), RouterError>)
        requires
            table_ok(*old(self)),
        ensures
            table_ok(*final(self)),
            match r {
                Ok(_) => {
                    &&& !old(self).prepared
                    &&& spec_pattern_ok(pattern@)
                    &&& !final(self).prepared
                    &&& spec_routes_for(*final(self), method) == spec_routes_for(
                        *old(self),
                        method,
                    ).push(spec_routes_for(*final(self), method).last())
                    &&& spec_new_route(
                        spec_routes_for(*final(self), method).last(),
                        method,
                        pattern@,
                        handler,
                        name,
                    )
                    &&& forall|m2: HttpMethod|
                        m2 != method ==> #[trigger] spec_routes_for(*final(self), m2)
                            == spec_routes_for(*old(self), m2)
                },
                Err(e) => {
                    &&& e == RouterError::InvalidPattern
                    &&& (old(self).prepared || !spec_pattern_ok(pattern@))
                    &&& *final(self) == *old(self)
                },
            },
    {
        let segs = match parse_pattern(pattern) {
            Ok(s) => s,
            Err(e) => {
                return Err(e);
            },
        };
        if self.prepared {
            return Err(RouterError::InvalidPattern);
        }
        let route = Route {
            method,
            pattern: pattern.to_owned(),
            segments: segs,
            name,
            handler,
        };
        let ghost oldbs = self.buckets@;
        match self.find_bucket(method) {
            Some(i) => {
                let mut b = self.buckets.remove(i);
                b.1.push(route);
                self.buckets.insert(i, b);
                proof {
                    assert(self.buckets@ =~= oldbs.update(i as int, self.buckets@[i as int]));
                    lemma_routes_for_update(oldbs, i as int, self.buckets@[i as int]);
                    lemma_routes_for_first(oldbs, method, i as int);
                    assert(spec_routes_for(*self, method) =~= spec_routes_for_in(
                        oldbs,
                        method,
                    ).push(spec_routes_for(*self, method).last()));
                }
            },
            None => {
                let mut rv: Vec<Route> = Vec::new();
                rv.push(route);
                self.buckets.push((method, rv));
                proof {
                    assert(self.buckets@ =~= oldbs.push(self.buckets@.last()));
                    lemma_routes_for_push(oldbs, self.buckets@.last());
                    lemma_routes_for_absent(oldbs, method);
                    assert(spec_routes_for(*self, method) =~= spec_routes_for_in(
                        oldbs,
                        method,
                    ).push(spec_routes_for(*self, method).last()));
                }
            },
        }
        Ok(())
    }

    /// Sorts every method's routes by specificity. Idempotent: a
    /// second call leaves the table as it is.
    pub fn prepare(&mut self)
        requires
            table_ok(*old(self)),
        ensures
            table_ok(*final(self)),
            final(self).prepared,
            old(self).prepared ==> *final(self) == *old(self),
            !old(self).prepared ==> forall|m: HttpMethod| #[trigger]
                spec_routes_for(*final(self), m) == spec_sort_routes(
                    spec_routes_for(*old(self), m),
                ),
    {
        if self.prepared {
            return ;
        }
        let ghost oldbs = self.buckets@;
        let mut newb: Vec<(HttpMethod, Vec<Route>)> = Vec::new();
        proof {
            assert(oldbs.skip(0) =~= oldbs);
        }
        while self.buckets.len() > 0
            invariant
                self.buckets@.len() <= oldbs.len(),
                self.buckets@ == oldbs.skip(oldbs.len() - self.buckets@.len()),
                newb@.len() == oldbs.len() - self.buckets@.len(),
                forall|i: int|
                    0 <= i < newb@.len() ==> (#[trigger] newb@[i]).0 == oldbs[i].0
                        && newb@[i].1@ == spec_sort_routes(oldbs[i].1@),
            decreases self.buckets@.len(),
        {
            let ghost done = (oldbs.len() - self.buckets@.len()) as int;
            let b = self.buckets.remove(0);
            proof {
                assert(self.buckets@ =~= oldbs.skip(done + 1));
                assert(b == oldbs[done]);
            }
            let sorted = sort_routes(b.1);
            newb.push((b.0, sorted));
        }
        self.buckets = newb;
        self.prepared = true;
        proof {
            lemma_buckets_sorted_version(oldbs, self.buckets@);
            assert forall|m: HttpMethod| #[trigger]
                spec_routes_for(*self, m) == spec_sort_routes(
                    spec_routes_for_in(oldbs, m),
                ) by {}
            assert forall|m: HttpMethod| routes_sorted(#[trigger] spec_routes_for(*self, m)) by {
                lemma_sort_routes_sorted(spec_routes_for_in(oldbs, m));
            }
        }
    }

    /// Matches a method and path against the prepared table.
    ///
    /// Returns the first route of the method whose segment count
    /// equals the path's and whose literals all agree, with its
    /// captured parameters; `None` exactly when no route matches.
    pub fn match_route(&self, method: HttpMethod, path: &str) -> (res: Option<RouteMatch>)
        ensures
            ({
                let rs = spec_routes_for(*self, method);
                let texts = spec_path_segments(path@);
                match res {
                    Some(mr) => spec_first_match(rs, texts) >= 0 && mr.handler == rs[
                        spec_first_match(rs, texts)].handler && spec_pairs_view(mr.params@)
                        == spec_captures(rs[spec_first_match(rs, texts)].segments@, texts),
                    None => spec_first_match(rs, texts) == -1,
                }
            }),
    {
        let ghost texts = spec_path_segments(path@);
        let split = split_path(path);
        match self.find_bucket(method) {
            None => {
                proof {
                    lemma_routes_for_absent(self.buckets@, method);
                }
                None
            },
            Some(bi) => {
                proof {
                    lemma_routes_for_first(self.buckets@, method, bi as int);
                }
                let routes = &self.buckets[bi].1;
                let n = routes.len();
                let mut k: usize = 0;
                while k < n
                    invariant
                        k <= n,
                        n == routes@.len(),
                        routes@ == spec_routes_for(*self, method),
                        texts == spec_path_segments(path@),
                        split@.map_values(|t: String| t@) == texts,
                        forall|j: int|
                            0 <= j < k ==> !spec_route_matches(&#[trigger] routes@[j], texts),
                    decreases n - k,
                {
                    match try_match_route(&routes[k], &split) {
                        Some(params) => {
                            proof {
                                lemma_first_match_at(routes@, texts, k as int);
                            }
                            return Some(RouteMatch { handler: routes[k].handler, params });
                        },
                        None => {},
                    }
                    k = k + 1;
                }
                proof {
                    lemma_first_match(routes@, texts);
                }
                None
            },
        }
    }
}

proof fn lemma_buckets_sorted_version(
    a: Seq<(HttpMethod, Vec<Route>)>,
    b: Seq<(HttpMethod, Vec<Route>)>,
)
    requires
        a.len() == b.len(),
        forall|i: int|
            0 <= i < a.len() ==> (#[trigger] b[i]).0 == a[i].0 && b[i].1@ == spec_sort_routes(
                a[i].1@,
            ),
    ensures
        forall|m: HttpMethod| #[trigger]
            spec_routes_for_in(b, m) == spec_sort_routes(spec_routes_for_in(a, m)),
    decreases a.len(),
{
    if a.len() == 0 {
        assert forall|m: HttpMethod| #[trigger]
            spec_routes_for_in(b, m) == spec_sort_routes(spec_routes_for_in(a, m)) by {}
    } else {
        assert forall|i: int| 0 <= i < a.skip(1).len() implies (#[trigger] b.skip(1)[i]).0
            == a.skip(1)[i].0 && b.skip(1)[i].1@ == spec_sort_routes(a.skip(1)[i].1@) by {
            assert(a.skip(1)[i] == a[i + 1]);
            assert(b.skip(1)[i] == b[i + 1]);
        }
        lemma_buckets_sorted_version(a.skip(1), b.skip(1));
        assert forall|m: HttpMethod| #[trigger]
            spec_routes_for_in(b, m) == spec_sort_routes(spec_routes_for_in(a, m)) by {
            assert(b[0].0 == a[0].0);
            if m == a[0].0 {
                assert(spec_routes_for_in(b, m) == b[0].1@);
                assert(spec_routes_for_in(a, m) == a[0].1@);
            } else {
                assert(spec_routes_for_in(b, m) == spec_routes_for_in(b.skip(1), m));
                assert(spec_routes_for_in(a, m) == spec_routes_for_in(a.skip(1), m));
            }
        }
    }
}


// ---------------------------------------------------------------------
// Introspection
// ---------------------------------------------------------------------

/// One row of the route listing: method, pattern and handler name.
#[derive(Debug)]
pub struct RouteEntry {
    pub method: String,
    pub path: String,
    pub handler_name: String,
}

/// The text of a method name.
pub open spec fn spec_method_name(m: HttpMethod) -> Seq<char> {
    match m {
        HttpMethod::Get => "GET"@,
        HttpMethod::Post => "POST"@,
        HttpMethod::Put => "PUT"@,
        HttpMethod::Delete => "DELETE"@,
        HttpMethod::Patch => "PATCH"@,
        HttpMethod::Options => "OPTIONS"@,
        HttpMethod::Head => "HEAD"@,
    }
}

/// Renders a method name.
pub fn method_name(m: HttpMethod) -> (r: &'static str)
    ensures
        r@ == spec_method_name(m),
{
    match m {
        HttpMethod::Get => "GET",
        HttpMethod::Post => "POST",
        HttpMethod::Put => "PUT",
        HttpMethod::Delete => "DELETE",
        HttpMethod::Patch => "PATCH",
        HttpMethod::Options => "OPTIONS",
        HttpMethod::Head => "HEAD",
    }
}

/// The listing rows of a route list: one per named route, in order.
pub open spec fn spec_entries_of_routes(rs: Seq<Route>) -> Seq<(Seq<char>, Seq<char>, Seq<char>)>
    decreases rs.len(),
{
    if rs.len() == 0 {
        Seq::empty()
    } else {
        let rest = spec_entries_of_routes(rs.skip(1));
        match rs[0].name {
            Option::Some(n) => seq![(spec_method_name(rs[0].method), rs[0].pattern@, n@)] + rest,
            Option::None => rest,
        }
    }
}

/// The listing rows of a whole table, bucket by bucket.
pub open spec fn spec_entries_of_buckets(bs: Seq<(HttpMethod, Vec<Route>)>) -> Seq<
    (Seq<char>, Seq<char>, Seq<char>),
>
    decreases bs.len(),
{
    if bs.len() == 0 {
        Seq::empty()
    } else {
        spec_entries_of_routes(bs[0].1@) + spec_entries_of_buckets(bs.skip(1))
    }
}

/// The view of a listing.
pub open spec fn spec_entries_view(es: Seq<RouteEntry>) -> Seq<(Seq<char>, Seq<char>, Seq<char>)> {
    es.map_values(|e: RouteEntry| (e.method@, e.path@, e.handler_name@))
}

impl RouteTable {
    /// Lists every named route: its method, its pattern and its
    /// handler name, in the table's current order.
    pub fn route_entries(&self) -> (r: Vec<RouteEntry>)
        ensures
            spec_entries_view(r@) == spec_entries_of_buckets(self.buckets@),
    {
        let mut out: Vec<RouteEntry> = Vec::new();
        let nb = self.buckets.len();
        let mut i: usize = 0;
        proof {
            assert(self.buckets@.skip(0) =~= self.buckets@);
            assert(spec_entries_view(out@) =~= Seq::<(Seq<char>, Seq<char>, Seq<char>)>::empty());
            assert(Seq::<(Seq<char>, Seq<char>, Seq<char>)>::empty() + spec_entries_of_buckets(
                self.buckets@,
            ) =~= spec_entries_of_buckets(self.buckets@));
        }
        while i < nb
            invariant
                i <= nb,
                nb == self.buckets@.len(),
                spec_entries_of_buckets(self.buckets@) == spec_entries_view(out@)
                    + spec_entries_of_buckets(self.buckets@.skip(i as int)),
            decreases nb - i,
        {
            proof {
                assert(self.buckets@.skip(i as int)[0] == self.buckets@[i as int]);
                assert(self.buckets@.skip(i as int).skip(1) =~= self.buckets@.skip(i + 1));
            }
            let routes = &self.buckets[i].1;
            let nr = routes.len();
            let mut j: usize = 0;
            proof {
                assert(routes@.skip(0) =~= routes@);
            }
            while j < nr
                invariant
                    j <= nr,
                    i < nb,
                    nb == self.buckets@.len(),
                    nr == self.buckets@[i as int].1@.len(),
                    routes@ == self.buckets@[i as int].1@,
                    spec_entries_of_buckets(self.buckets@) == spec_entries_view(out@) + (
                    spec_entries_of_routes(routes@.skip(j as int)) + spec_entries_of_buckets(
                        self.buckets@.skip(i + 1),
                    )),
                decreases nr - j,
            {
                proof {
                    assert(routes@.skip(j as int)[0] == routes@[j as int]);
                    assert(routes@.skip(j as int).skip(1) =~= routes@.skip(j + 1));
                }
                let ghost outv = spec_entries_view(out@);
                match &routes[j].name {
                    Some(n) => {
                        let entry = RouteEntry {
                            method: method_name(routes[j].method).to_owned(),
                            path: routes[j].pattern.clone(),
                            handler_name: n.clone(),
                        };
                        let ghost ev = (entry.method@, entry.path@, entry.handler_name@);
                        out.push(entry);
                        proof {
                            assert(spec_entries_view(out@) =~= outv.push(ev));
                            assert(outv.push(ev) + (spec_entries_of_routes(routes@.skip(j + 1))
                                + spec_entries_of_buckets(self.buckets@.skip(i + 1))) =~= outv + (
                            seq![ev] + (spec_entries_of_routes(routes@.skip(j + 1))
                                + spec_entries_of_buckets(self.buckets@.skip(i + 1)))));
                            assert(seq![ev] + (spec_entries_of_routes(routes@.skip(j + 1))
                                + spec_entries_of_buckets(self.buckets@.skip(i + 1))) =~= (seq![ev]
                                + spec_entries_of_routes(routes@.skip(j + 1)))
                                + spec_entries_of_buckets(self.buckets@.skip(i + 1)));
                        }
                    },
                    None => {},
                }
                j = j + 1;
            }
            proof {
                assert(routes@.skip(nr as int) =~= Seq::<Route>::empty());
            }
            i = i + 1;
        }
        proof {
            assert(self.buckets@.skip(nb as int) =~= Seq::<(HttpMethod, Vec<Route>)>::empty());
            assert(spec_entries_view(out@) + Seq::<(Seq<char>, Seq<char>, Seq<char>)>::empty()
                =~= spec_entries_view(out@));
        }
        out
    }
}

// ---------------------------------------------------------------------
// Laws of matching
// ---------------------------------------------------------------------

/// Matching is deterministic: it depends only on the method's route
/// list and the path, never on any iteration order. Two tables that
/// hold the same routes for a method answer alike.
pub proof fn lemma_match_deterministic(
    t1: RouteTable,
    t2: RouteTable,
    m: HttpMethod,
    texts: Seq<Seq<char>>,
)
    requires
        spec_routes_for(t1, m) == spec_routes_for(t2, m),
    ensures
        spec_first_match(spec_routes_for(t1, m), texts) == spec_first_match(
            spec_routes_for(t2, m),
            texts,
        ),
{
}

/// In a prepared table, the matched route is at least as specific as
/// every other route that also accepts the path.
pub proof fn lemma_first_match_most_specific(rs: Seq<Route>, texts: Seq<Seq<char>>)
    requires
        routes_sorted(rs),
        spec_first_match(rs, texts) >= 0,
    ensures
        forall|j: int|
            0 <= j < rs.len() && spec_route_matches(&#[trigger] rs[j], texts) ==> prio_le(
                route_kinds(&rs[spec_first_match(rs, texts)]),
                route_kinds(&rs[j]),
            ),
{
    lemma_first_match(rs, texts);
    let m = spec_first_match(rs, texts);
    assert forall|j: int|
        0 <= j < rs.len() && spec_route_matches(&#[trigger] rs[j], texts) implies prio_le(
        route_kinds(&rs[m]),
        route_kinds(&rs[j]),
    ) by {
        if j < m {
            assert(!spec_route_matches(&rs[j], texts));
        }
    }
}

/// A route that is strictly more specific than another is never
/// shadowed by it, whatever the registration order was: the first
/// match is not the less specific of the two.
pub proof fn lemma_static_route_wins(rs: Seq<Route>, texts: Seq<Seq<char>>, i: int, j: int)
    requires
        routes_sorted(rs),
        0 <= i < rs.len(),
        0 <= j < rs.len(),
        spec_route_matches(&rs[i], texts),
        spec_route_matches(&rs[j], texts),
        prio_le(route_kinds(&rs[i]), route_kinds(&rs[j])),
        !prio_le(route_kinds(&rs[j]), route_kinds(&rs[i])),
    ensures
        spec_first_match(rs, texts) != j,
{
    lemma_first_match(rs, texts);
    if spec_first_match(rs, texts) == -1 {
        assert(!spec_route_matches(&rs[i], texts));
    }
    lemma_first_match_most_specific(rs, texts);
    if spec_first_match(rs, texts) == j {
        assert(prio_le(route_kinds(&rs[j]), route_kinds(&rs[i])));
    }
}

/// Paths with different segment counts share no route: `/users` and
/// `/users/` can never answer for each other.
pub proof fn lemma_segment_count_distinct(r: &Route, t1: Seq<Seq<char>>, t2: Seq<Seq<char>>)
    requires
        t1.len() != t2.len(),
    ensures
        !(spec_route_matches(r, t1) && spec_route_matches(r, t2)),
{
}

} // verus!
