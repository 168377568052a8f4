//! Dispatch of credential paths to writers by path prefix.
//!
//! Routes are tried longest prefix first; a path that matches no route goes to the
//! default writer. Prefixes are normalized so that they match whole path segments.
use vstd::prelude::*;
use vstd::utf8::encode_utf8;
use vstd::string::*;

use crate::byte_order::{
    bytes_lex_le, bytes_starts_with, is_prefix_of, lemma_lex_le_reflexive, lemma_lex_le_total,
    lemma_lex_le_meaning, lemma_lex_le_transitive, lex_le,
};

verus! {

/// What a route prefix becomes: the catch-all `"/"` becomes the empty prefix, a prefix
/// that already ends in `'/'` stays as it is, and any other prefix gains a trailing `'/'`.
pub open spec fn normalized_prefix(prefix: Seq<char>) -> Seq<char> {
    if prefix == seq!['/'] {
        Seq::empty()
    } else if prefix.len() > 0 && prefix.last() == '/' {
        prefix
    } else {
        prefix.push('/')
    }
}

/// The UTF-8 bytes of a string, on which `str` ordering and prefix tests work.
pub open spec fn utf8_bytes(s: Seq<char>) -> Seq<u8> {
    encode_utf8(s)
}

/// A route with prefix `prefix` takes `path`: the path's bytes start with the prefix's bytes.
pub open spec fn route_matches(prefix: Seq<char>, path: Seq<char>) -> bool {
    is_prefix_of(utf8_bytes(prefix), utf8_bytes(path))
}

/// The order in which routes are tried: longer prefixes (in bytes) first, and among
/// prefixes of equal length, the lexicographically smaller one first.
pub open spec fn tried_before(a: Seq<char>, b: Seq<char>) -> bool {
    let x = utf8_bytes(a);
    let y = utf8_bytes(b);
    x.len() > y.len() || (x.len() == y.len() && lex_le(x, y))
}

/// Every route comes no later than the routes after it.
pub open spec fn routes_sorted<W>(routes: Seq<(Seq<char>, W)>) -> bool {
    forall|i: int, j: int|
        0 <= i < j < routes.len() ==> tried_before(#[trigger] routes[i].0, #[trigger] routes[j].0)
}

/// Selects the routes whose prefix is exactly `prefix`.
pub open spec fn with_prefix<W>(prefix: Seq<char>) -> spec_fn((Seq<char>, W)) -> bool {
    |r: (Seq<char>, W)| r.0 == prefix
}

/// The routes as given to the constructor, with their prefixes normalized.
pub open spec fn normalized_routes<W>(routes: Seq<(String, W)>) -> Seq<(Seq<char>, W)> {
    routes.map_values(|r: (String, W)| (normalized_prefix(r.0@), r.1))
}

/// Route `i` is the first route that takes `path`.
pub open spec fn is_first_match<W>(routes: Seq<(Seq<char>, W)>, path: Seq<char>, i: int) -> bool {
    &&& 0 <= i < routes.len()
    &&& route_matches(routes[i].0, path)
    &&& forall|j: int| 0 <= j < i ==> !route_matches(#[trigger] routes[j].0, path)
}

/// Some route takes `path`.
pub open spec fn has_match<W>(routes: Seq<(Seq<char>, W)>, path: Seq<char>) -> bool {
    exists|i: int| is_first_match(routes, path, i)
}

/// The abstract contents of a routed writer: its routes in the order they are tried,
/// and the writer for paths that no route takes.
pub struct RouteTable<W> {
    pub routes: Seq<(Seq<char>, W)>,
    pub default_writer: W,
}

/// The writer that handles `path`: that of the first route taking it, else the default.
pub open spec fn handler<W>(table: RouteTable<W>, path: Seq<char>) -> W {
    if has_match(table.routes, path) {
        table.routes[choose|i: int| is_first_match(table.routes, path, i)].1
    } else {
        table.default_writer
    }
}

/// The abstract view of stored routes: each prefix as characters, with its writer.
pub open spec fn route_view<W>(routes: Seq<(String, W)>) -> Seq<(Seq<char>, W)> {
    routes.map_values(|r: (String, W)| (r.0@, r.1))
}

proof fn lemma_tried_before_reflexive(a: Seq<char>)
    ensures
        tried_before(a, a),
{
    lemma_lex_le_reflexive(utf8_bytes(a));
}

proof fn lemma_tried_before_total(a: Seq<char>, b: Seq<char>)
    ensures
        tried_before(a, b) || tried_before(b, a),
{
    lemma_lex_le_total(utf8_bytes(a), utf8_bytes(b));
}

proof fn lemma_tried_before_transitive(a: Seq<char>, b: Seq<char>, c: Seq<char>)
    requires
        tried_before(a, b),
        tried_before(b, c),
    ensures
        tried_before(a, c),
{
    let (x, y, z) = (utf8_bytes(a), utf8_bytes(b), utf8_bytes(c));
    if x.len() == y.len() && y.len() == z.len() {
        lemma_lex_le_transitive(x, y, z);
    }
}

/// A sequence none of whose elements passes `pred` filters to nothing.
proof fn lemma_filter_none<A>(s: Seq<A>, pred: spec_fn(A) -> bool)
    requires
        forall|i: int| 0 <= i < s.len() ==> !pred(#[trigger] s[i]),
    ensures
        s.filter(pred) == Seq::<A>::empty(),
    decreases s.len(),
{
    reveal(Seq::filter);
    if s.len() > 0 {
        assert(!pred(s[s.len() - 1]));
        lemma_filter_none(s.drop_last(), pred);
    }
}

/// The filter of a one-element sequence.
proof fn lemma_filter_single<A>(x: A, pred: spec_fn(A) -> bool)
    ensures
        seq![x].filter(pred) == (if pred(x) { seq![x] } else { Seq::<A>::empty() }),
{
    reveal_with_fuel(Seq::filter, 2);
    assert(seq![x].drop_last() =~= Seq::<A>::empty());
}

/// Inserting `e` into sorted routes after every route tried no later than it, and before
/// the first route that is not, keeps the routes sorted, and appends `e` to the routes
/// that share its prefix.
proof fn lemma_sorted_insert<W>(v: Seq<(Seq<char>, W)>, e: (Seq<char>, W), p: int)
    requires
        routes_sorted(v),
        0 <= p <= v.len(),
        forall|q: int| 0 <= q < p ==> tried_before(#[trigger] v[q].0, e.0),
        p < v.len() ==> !tried_before(v[p].0, e.0),
    ensures
        routes_sorted(v.insert(p, e)),
        forall|k: Seq<char>|
            #[trigger] v.insert(p, e).filter(with_prefix(k)) == v.filter(with_prefix(k)) + seq![e].filter(
                with_prefix(k),
            ),
{
    let n = v.insert(p, e);
    if p < v.len() {
        lemma_tried_before_total(v[p].0, e.0);
    }
    assert forall|i: int, j: int| 0 <= i < j < n.len() implies tried_before(
        #[trigger] n[i].0,
        #[trigger] n[j].0,
    ) by {
        if j < p {
            assert(n[i] == v[i] && n[j] == v[j]);
        } else if j == p {
            assert(n[i] == v[i] && n[j] == e);
        } else if i == p {
            assert(n[i] == e && n[j] == v[j - 1]);
            if j - 1 > p {
                assert(tried_before(v[p].0, v[j - 1].0));
                lemma_tried_before_transitive(e.0, v[p].0, v[j - 1].0);
            }
        } else if i < p {
            assert(n[i] == v[i] && n[j] == v[j - 1]);
        } else {
            assert(n[i] == v[i - 1] && n[j] == v[j - 1]);
        }
    }
    let a = v.take(p);
    let b = v.skip(p);
    assert(v =~= a + b);
    assert(n =~= a + (seq![e] + b));
    assert forall|k: Seq<char>| #[trigger] n.filter(with_prefix(k)) == v.filter(with_prefix(k)) + seq![e].filter(
        with_prefix(k),
    ) by {
        let f = with_prefix::<W>(k);
        Seq::filter_distributes_over_add(a, seq![e] + b, f);
        Seq::filter_distributes_over_add(a, b, f);
        b.lemma_filter_prepend(e, f);
        lemma_filter_single(e, f);
        if e.0 == k {
            assert forall|i: int| 0 <= i < b.len() implies !f(#[trigger] b[i]) by {
                if b[i].0 == k {
                    lemma_tried_before_reflexive(k);
                    if i > 0 {
                        assert(tried_before(v[p].0, v[p + i].0));
                    }
                    assert(b[i] == v[p + i]);
                }
            }
            lemma_filter_none(b, f);
            assert(b.filter(f) + Seq::<(Seq<char>, W)>::empty() =~= b.filter(f));
            assert(seq![e] + b.filter(f) =~= seq![e] + Seq::<(Seq<char>, W)>::empty());
        } else {
            assert(Seq::<(Seq<char>, W)>::empty() + b.filter(f) =~= b.filter(f));
            assert(a.filter(f) + b.filter(f) + Seq::<(Seq<char>, W)>::empty() =~= a.filter(f) + b.filter(f));
        }
    }
}

/// Dispatches credential writes and deletes to writers by path prefix.
pub struct RoutedCredentialWriter<W> {
    routes: Vec<(String, W)>,
    default_writer: W,
}

impl<W> RoutedCredentialWriter<W> {
    /// The stored routes are always in the order in which they are tried.
    #[verifier::type_invariant]
    closed spec fn routes_in_order(self) -> bool {
        routes_sorted(route_view(self.routes@))
    }
}

impl<W> View for RoutedCredentialWriter<W> {
    type V = RouteTable<W>;

    closed spec fn view(&self) -> RouteTable<W> {
        RouteTable {
            routes: route_view(self.routes@),
            default_writer: self.default_writer,
        }
    }
}

/// Tells whether a route with prefix `a` is tried no later than one with prefix `b`.
fn tried_before_exec(a: &String, b: &String) -> (r: bool)
    ensures
        r == tried_before(a@, b@),
{
    let x = a.as_str().as_bytes();
    let y = b.as_str().as_bytes();
    x.len() > y.len() || (x.len() == y.len() && bytes_lex_le(x, y))
}

/// Normalizes a route prefix so that it matches whole path segments.
pub fn normalize_prefix(prefix: &str) -> (r: String)
    ensures
        r@ == normalized_prefix(prefix@),
        prefix@ == seq!['/'] ==> r@.len() == 0,
        prefix@ != seq!['/'] && prefix@.len() > 0 && prefix@.last() == '/' ==> r@ == prefix@,
        prefix@ != seq!['/'] && !(prefix@.len() > 0 && prefix@.last() == '/') ==> r@ == prefix@
            + seq!['/'],
{
    let n = prefix.unicode_len();
    if n == 1 && prefix.get_char(0) == '/' {
        assert(prefix@ =~= seq!['/']);
        String::new()
    } else if n > 0 && prefix.get_char(n - 1) == '/' {
        prefix.to_owned()
    } else {
        proof {
            reveal_strlit("/");
        }
        let r = String::from_str(prefix).concat("/");
        assert(r@ =~= prefix@.push('/'));
        r
    }
}

impl<W> RoutedCredentialWriter<W> {
    /// Builds a routed writer from `(prefix, writer)` entries. Each prefix is normalized
    /// (see `normalize_prefix`), and the routes are ordered longest prefix first, equal
    /// lengths in lexicographic order; entries with the same prefix keep their given order.
    pub fn new(routes: Vec<(String, W)>, default_writer: W) -> (r: Self)
        ensures
            r@.default_writer == default_writer,
            routes_sorted(r@.routes),
            forall|k: Seq<char>|
                #[trigger] r@.routes.filter(with_prefix(k)) == normalized_routes(routes@).filter(
                    with_prefix(k),
                ),
    {
        let ghost given = routes@;
        let ghost input = normalized_routes(routes@);
        let mut rest = routes;
        let mut sorted: Vec<(String, W)> = Vec::new();
        let ghost mut done: int = 0;
        proof {
            assert(given.skip(0) =~= given);
            assert(input.take(0) =~= Seq::<(Seq<char>, W)>::empty());
            reveal(Seq::filter);
        }
        while rest.len() > 0
            invariant
                0 <= done <= given.len(),
                input == normalized_routes(given),
                rest@ == given.skip(done),
                routes_sorted(route_view(sorted@)),
                forall|k: Seq<char>|
                    #[trigger] route_view(sorted@).filter(with_prefix(k)) == input.take(done).filter(
                        with_prefix(k),
                    ),
            decreases rest.len(),
        {
            let (given_prefix, writer) = rest.remove(0);
            let prefix = normalize_prefix(given_prefix.as_str());
            let mut p: usize = 0;
            while p < sorted.len() && tried_before_exec(&sorted[p].0, &prefix)
                invariant
                    p <= sorted.len(),
                    forall|q: int| 0 <= q < p ==> tried_before(#[trigger] route_view(sorted@)[q].0, prefix@),
                decreases sorted.len() - p,
            {
                p = p + 1;
            }
            let ghost old_view = route_view(sorted@);
            let ghost e = (prefix@, writer);
            proof {
                assert(given[done] == given.skip(done)[0]);
                assert(e == input[done]);
                lemma_sorted_insert(old_view, e, p as int);
            }
            sorted.insert(p, (prefix, writer));
            proof {
                assert(route_view(sorted@) =~= old_view.insert(p as int, e));
                assert(input.take(done + 1) =~= input.take(done) + seq![e]);
                assert forall|k: Seq<char>|
                    #[trigger] route_view(sorted@).filter(with_prefix(k)) == input.take(done + 1).filter(
                        with_prefix(k),
                    ) by {
                    Seq::filter_distributes_over_add(input.take(done), seq![e], with_prefix(k));
                }
                assert(rest@ =~= given.skip(done + 1));
                done = done + 1;
            }
        }
        proof {
            assert(input.take(done) =~= input);
        }
        RoutedCredentialWriter { routes: sorted, default_writer }
    }

    /// Returns the writer that handles `path`.
    pub fn writer_for_path(&self, path: &str) -> (w: &W)
        ensures
            *w == handler(self@, path@),
            routes_sorted(self@.routes),
            (forall|j: int|
                0 <= j < self@.routes.len() ==> !(encode_utf8(#[trigger] self@.routes[j].0).len()
                    <= encode_utf8(path@).len() && encode_utf8(path@).subrange(
                    0,
                    encode_utf8(self@.routes[j].0).len() as int,
                ) == encode_utf8(self@.routes[j].0))) ==> *w == self@.default_writer,
            forall|i: int|
                0 <= i < self@.routes.len() && encode_utf8(#[trigger] self@.routes[i].0).len()
                    <= encode_utf8(path@).len() && encode_utf8(path@).subrange(
                    0,
                    encode_utf8(self@.routes[i].0).len() as int,
                ) == encode_utf8(self@.routes[i].0) && (forall|j: int|
                    0 <= j < i ==> !(encode_utf8(#[trigger] self@.routes[j].0).len() <= encode_utf8(
                        path@,
                    ).len() && encode_utf8(path@).subrange(
                        0,
                        encode_utf8(self@.routes[j].0).len() as int,
                    ) == encode_utf8(self@.routes[j].0))) ==> *w == self@.routes[i].1,
    {
        proof {
            use_type_invariant(self);
        }
        let path_bytes = path.as_bytes();
        let mut i: usize = 0;
        while i < self.routes.len()
            invariant
                i <= self.routes.len(),
                path_bytes@ == utf8_bytes(path@),
                routes_sorted(self@.routes),
                forall|j: int| 0 <= j < i ==> !route_matches(#[trigger] self@.routes[j].0, path@),
            decreases self.routes.len() - i,
        {
            let prefix_bytes = self.routes[i].0.as_str().as_bytes();
            if bytes_starts_with(path_bytes, prefix_bytes) {
                proof {
                    assert(is_first_match(self@.routes, path@, i as int));
                    let k = choose|k: int| is_first_match(self@.routes, path@, k);
                    assert(k == i) by {
                        if k < i {
                            assert(!route_matches(self@.routes[k].0, path@));
                        } else if k > i {
                            assert(!route_matches(self@.routes[i as int].0, path@));
                        }
                    }
                }
                proof {
                    lemma_handler_by_first_starting_route(self@, path@);
                }
                return &self.routes[i].1;
            }
            assert(!route_matches(self@.routes[i as int].0, path@));
            i = i + 1;
        }
        assert(!has_match(self@.routes, path@));
        proof {
            lemma_handler_by_first_starting_route(self@, path@);
        }
        &self.default_writer
    }
}

/// A prefix is normalized once: normalizing again changes nothing, for every prefix
/// other than the empty one and the catch-all `"/"` (which trade places).
pub proof fn lemma_normalize_idempotent(prefix: Seq<char>)
    requires
        prefix != Seq::<char>::empty(),
        prefix != seq!['/'],
    ensures
        normalized_prefix(normalized_prefix(prefix)) == normalized_prefix(prefix),
{
    let q = normalized_prefix(prefix);
    if !(prefix.len() > 0 && prefix.last() == '/') {
        assert(q.len() == prefix.len() + 1);
        assert(q.last() == '/');
        assert(q != seq!['/']) by {
            if q == seq!['/'] {
                assert(prefix.len() == 0);
                assert(prefix =~= Seq::<char>::empty());
            }
        }
    }
}

/// What normalization does to a prefix: the catch-all `"/"` becomes empty; any other
/// prefix is kept as the start of the result, which ends with `'/'` and is at most one
/// character longer.
pub proof fn lemma_normalized_prefix_extends(prefix: Seq<char>)
    ensures
        prefix == seq!['/'] ==> normalized_prefix(prefix).len() == 0,
        prefix != seq!['/'] ==> {
            let n = normalized_prefix(prefix);
            &&& n.len() > 0
            &&& n.last() == '/'
            &&& n.subrange(0, prefix.len() as int) == prefix
            &&& (n == prefix || n == prefix + seq!['/'])
        },
{
    if prefix != seq!['/'] {
        let n = normalized_prefix(prefix);
        if !(prefix.len() > 0 && prefix.last() == '/') {
            assert(n =~= prefix + seq!['/']);
        }
        assert(n.subrange(0, prefix.len() as int) =~= prefix);
    }
}

/// Normalized prefixes match whole path segments: every normalized prefix is either
/// empty (the catch-all) or ends with `'/'`.
pub proof fn lemma_normalized_prefix_ends_segment(prefix: Seq<char>)
    ensures
        normalized_prefix(prefix).len() == 0 || normalized_prefix(prefix).last() == '/',
        normalized_prefix(prefix).len() == 0 <==> prefix == seq!['/'],
{
}

/// Routes are tried longest prefix first: when route `i` is the first route that takes
/// `path`, it handles the path, and no route that takes the path has a longer prefix; a
/// route with a prefix of the same length comes later in lexicographic order, and a route
/// with the very same prefix comes after route `i`.
pub proof fn lemma_longest_prefix_wins<W>(table: RouteTable<W>, path: Seq<char>, i: int, j: int)
    requires
        routes_sorted(table.routes),
        is_first_match(table.routes, path, i),
        0 <= j < table.routes.len(),
        route_matches(table.routes[j].0, path),
    ensures
        handler(table, path) == table.routes[i].1,
        utf8_bytes(table.routes[j].0).len() <= utf8_bytes(table.routes[i].0).len(),
        utf8_bytes(table.routes[j].0).len() == utf8_bytes(table.routes[i].0).len() ==> lex_le(
            utf8_bytes(table.routes[i].0),
            utf8_bytes(table.routes[j].0),
        ),
        table.routes[j].0 == table.routes[i].0 ==> i <= j,
{
    let k = choose|k: int| is_first_match(table.routes, path, k);
    assert(k == i) by {
        if k < i {
            assert(!route_matches(table.routes[k].0, path));
        } else if k > i {
            assert(!route_matches(table.routes[i].0, path));
        }
    }
    if j < i {
        assert(!route_matches(table.routes[j].0, path));
    } else if j == i {
        lemma_lex_le_reflexive(utf8_bytes(table.routes[i].0));
    }
}

/// A path that no route takes is handled by the default writer.
pub proof fn lemma_unmatched_path_goes_to_default<W>(table: RouteTable<W>, path: Seq<char>)
    requires
        forall|j: int| 0 <= j < table.routes.len() ==> !route_matches(#[trigger] table.routes[j].0, path),
    ensures
        handler(table, path) == table.default_writer,
{
}

/// The empty prefix takes every path.
pub proof fn lemma_empty_prefix_matches_all(path: Seq<char>)
    ensures
        route_matches(Seq::<char>::empty(), path),
{
    assert(utf8_bytes(Seq::<char>::empty()) =~= Seq::<u8>::empty());
    assert(utf8_bytes(path).subrange(0, 0) =~= Seq::<u8>::empty());
}

/// An element that passes `pred` is kept by the filter.
proof fn lemma_filter_keeps<A>(s: Seq<A>, pred: spec_fn(A) -> bool, i: int)
    requires
        0 <= i < s.len(),
        pred(s[i]),
    ensures
        s.filter(pred).contains(s[i]),
{
    broadcast use Seq::lemma_filter_contains;

}

/// With the catch-all `"/"` among the given entries, every path is taken by a route:
/// the default writer is never used.
pub proof fn lemma_catch_all_takes_every_path<W>(
    table: RouteTable<W>,
    given: Seq<(String, W)>,
    c: int,
    path: Seq<char>,
)
    requires
        forall|k: Seq<char>|
            #[trigger] table.routes.filter(with_prefix(k)) == normalized_routes(given).filter(
                with_prefix(k),
            ),
        0 <= c < given.len(),
        given[c].0@ == seq!['/'],
    ensures
        has_match(table.routes, path),
{
    broadcast use Seq::lemma_filter_contains_rev;

    let input = normalized_routes(given);
    let f = with_prefix::<W>(Seq::<char>::empty());
    assert(input[c].0 == Seq::<char>::empty());
    lemma_filter_keeps(input, f, c);
    assert(table.routes.filter(f) == input.filter(f));
    assert(table.routes.contains(input[c]));
    let m = choose|m: int| 0 <= m < table.routes.len() && table.routes[m] == input[c];
    lemma_empty_prefix_matches_all(path);
    lemma_some_route_is_first(table.routes, path, m);
}

/// When some route takes `path`, a first such route exists.
proof fn lemma_some_route_is_first<W>(routes: Seq<(Seq<char>, W)>, path: Seq<char>, m: int)
    requires
        0 <= m < routes.len(),
        route_matches(routes[m].0, path),
    ensures
        has_match(routes, path),
    decreases m,
{
    if forall|j: int| 0 <= j < m ==> !route_matches(#[trigger] routes[j].0, path) {
        assert(is_first_match(routes, path, m));
    } else {
        let j = choose|j: int| 0 <= j < m && route_matches(#[trigger] routes[j].0, path);
        lemma_some_route_is_first(routes, path, j);
    }
}

/// Among entries given with the same prefix, the one given first handles the paths that
/// prefix takes: the route that handles a path is the first of the given entries (after
/// normalization) with that route's prefix.
pub proof fn lemma_first_given_wins<W>(
    table: RouteTable<W>,
    given: Seq<(String, W)>,
    path: Seq<char>,
    i: int,
)
    requires
        forall|k: Seq<char>|
            #[trigger] table.routes.filter(with_prefix(k)) == normalized_routes(given).filter(
                with_prefix(k),
            ),
        is_first_match(table.routes, path, i),
    ensures
        normalized_routes(given).filter(with_prefix(table.routes[i].0)).len() > 0,
        table.routes[i] == normalized_routes(given).filter(with_prefix(table.routes[i].0))[0],
{
    let s = table.routes;
    let f = with_prefix::<W>(s[i].0);
    let a = s.take(i);
    let b = s.skip(i + 1);
    assert(s =~= a + (seq![s[i]] + b));
    assert forall|q: int| 0 <= q < a.len() implies !f(#[trigger] a[q]) by {
        assert(a[q] == s[q]);
        assert(!route_matches(s[q].0, path));
    }
    lemma_filter_none(a, f);
    Seq::filter_distributes_over_add(a, seq![s[i]] + b, f);
    b.lemma_filter_prepend(s[i], f);
    assert(s.filter(f) =~= Seq::<(Seq<char>, W)>::empty() + (seq![s[i]] + b.filter(f)));
    assert(s.filter(f)[0] == s[i]);
    assert(s.filter(f) == normalized_routes(given).filter(f));
}

/// What it means for a route prefix to take a path: the prefix's UTF-8 bytes are exactly
/// the first bytes of the path's UTF-8 bytes. A prefix that occurs later in the path, but
/// not at its start, does not take it.
pub proof fn lemma_route_matches_means_starts_path(prefix: Seq<char>, path: Seq<char>)
    ensures
        route_matches(prefix, path) <==> (encode_utf8(prefix).len() <= encode_utf8(path).len()
            && encode_utf8(path).subrange(0, encode_utf8(prefix).len() as int) == encode_utf8(
            prefix,
        )),
{
}

/// The writer that handles a path is that of the first route whose prefix bytes start the
/// path's bytes; a path that no route prefix starts goes to the default writer.
pub proof fn lemma_handler_by_first_starting_route<W>(table: RouteTable<W>, path: Seq<char>)
    ensures
        (forall|j: int|
            0 <= j < table.routes.len() ==> !(encode_utf8(#[trigger] table.routes[j].0).len()
                <= encode_utf8(path).len() && encode_utf8(path).subrange(
                0,
                encode_utf8(table.routes[j].0).len() as int,
            ) == encode_utf8(table.routes[j].0))) ==> handler(table, path) == table.default_writer,
        forall|i: int|
            0 <= i < table.routes.len() && encode_utf8(#[trigger] table.routes[i].0).len()
                <= encode_utf8(path).len() && encode_utf8(path).subrange(
                0,
                encode_utf8(table.routes[i].0).len() as int,
            ) == encode_utf8(table.routes[i].0) && (forall|j: int|
                0 <= j < i ==> !(encode_utf8(#[trigger] table.routes[j].0).len() <= encode_utf8(
                    path,
                ).len() && encode_utf8(path).subrange(
                    0,
                    encode_utf8(table.routes[j].0).len() as int,
                ) == encode_utf8(table.routes[j].0))) ==> handler(table, path) == table.routes[i].1,
{
    assert forall|i: int|
        0 <= i < table.routes.len() && encode_utf8(#[trigger] table.routes[i].0).len() <= encode_utf8(
            path,
        ).len() && encode_utf8(path).subrange(0, encode_utf8(table.routes[i].0).len() as int)
            == encode_utf8(table.routes[i].0) && (forall|j: int|
            0 <= j < i ==> !(encode_utf8(#[trigger] table.routes[j].0).len() <= encode_utf8(
                path,
            ).len() && encode_utf8(path).subrange(0, encode_utf8(table.routes[j].0).len() as int)
                == encode_utf8(table.routes[j].0))) implies handler(table, path)
        == table.routes[i].1 by {
        assert(is_first_match(table.routes, path, i));
        let k = choose|k: int| is_first_match(table.routes, path, k);
        assert(k == i) by {
            if k < i {
                assert(!route_matches(table.routes[k].0, path));
            } else if k > i {
                assert(!route_matches(table.routes[i].0, path));
            }
        }
    }
    if forall|j: int|
        0 <= j < table.routes.len() ==> !(encode_utf8(#[trigger] table.routes[j].0).len()
            <= encode_utf8(path).len() && encode_utf8(path).subrange(
            0,
            encode_utf8(table.routes[j].0).len() as int,
        ) == encode_utf8(table.routes[j].0)) {
        if has_match(table.routes, path) {
            let k = choose|k: int| is_first_match(table.routes, path, k);
            assert(route_matches(table.routes[k].0, path));
        }
    }
}

/// Sorted routes put longer prefixes (in UTF-8 bytes) first; among prefixes of equal
/// length, at the first byte where two prefixes differ the earlier one has the smaller byte.
pub proof fn lemma_sorted_routes_longest_first<W>(routes: Seq<(Seq<char>, W)>, i: int, j: int)
    requires
        routes_sorted(routes),
        0 <= i < j < routes.len(),
    ensures
        encode_utf8(routes[i].0).len() >= encode_utf8(routes[j].0).len(),
        encode_utf8(routes[i].0).len() == encode_utf8(routes[j].0).len() ==> (encode_utf8(
            routes[i].0,
        ) == encode_utf8(routes[j].0) || exists|k: int|
            0 <= k < encode_utf8(routes[i].0).len() && encode_utf8(routes[i].0).subrange(0, k)
                == encode_utf8(routes[j].0).subrange(0, k) && encode_utf8(routes[i].0)[k]
                < encode_utf8(routes[j].0)[k]),
{
    assert(tried_before(routes[i].0, routes[j].0));
    let x = encode_utf8(routes[i].0);
    let y = encode_utf8(routes[j].0);
    if x.len() == y.len() {
        lemma_lex_le_meaning(x, y);
    }
}

} // verus!
