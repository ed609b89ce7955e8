//! The router: which handler serves which URL.
//!
//! A route pairs a pattern with a handler. A pattern is a path cut at `/`.
//! A segment that begins with `:` matches any one segment and captures it
//! under the name that follows the `:`. A segment that begins with `*`
//! matches the rest of the path, which must hold at least one segment (an
//! empty one after a trailing slash will do). Every other segment matches
//! itself. Routes are tried in the order in which they were added, and the
//! first that matches is taken.
use crate::agiparse::{
    text_view, texts, AGIRequestType, AGIVariableDump, AgiUrl, RequestView,
};
use crate::handler::{FallbackHandler, Handler};
use crate::layer::Layer;
use crate::text::{find_char, first_index_of, to_chars, to_string};
use vstd::prelude::*;
use vstd::slice::slice_subrange;
use vstd::std_specs::cmp::PartialEqSpecImpl;

verus! {

// ---------------------------------------------------------------------------
// Captures
// ---------------------------------------------------------------------------
/// The path segments that the `:name` segments of a route matched, each
/// under its name. A map from text to text that keeps its entries in a list.
#[derive(Debug)]
pub struct Captures {
    entries: Vec<(String, String)>,
}

/// The names of the entries.
pub open spec fn names(e: Seq<(String, String)>) -> Seq<Seq<char>> {
    Seq::new(e.len(), |i: int| e[i].0@)
}

/// Whether an entry has the name `k`.
pub open spec fn has_name(e: Seq<(String, String)>, k: Seq<char>) -> bool {
    exists|i: int| 0 <= i < e.len() && e[i].0@ == k
}

/// The place of the entry with the name `k`.
pub open spec fn place_of(e: Seq<(String, String)>, k: Seq<char>) -> int {
    choose|i: int| 0 <= i < e.len() && e[i].0@ == k
}

/// No name occurs twice.
pub open spec fn unique_names(e: Seq<(String, String)>) -> bool {
    forall|i: int, j: int| 0 <= i < j < e.len() ==> e[i].0@ != e[j].0@
}

/// The map that a list of entries with unique names stands for.
pub open spec fn entries_map(e: Seq<(String, String)>) -> Map<Seq<char>, Seq<char>> {
    Map::new(|k: Seq<char>| has_name(e, k), |k: Seq<char>| e[place_of(e, k)].1@)
}

/// Putting an entry at the place `at`, which is the place of its name or
/// the end of the list, puts its value under its name in the map.
proof fn lemma_put(
    before: Seq<(String, String)>,
    after: Seq<(String, String)>,
    name: Seq<char>,
    value: Seq<char>,
    at: int,
)
    requires
        unique_names(before),
        0 <= at <= before.len(),
        at < before.len() ==> before[at].0@ == name && after.len() == before.len(),
        at == before.len() ==> !has_name(before, name) && after.len() == before.len() + 1,
        after[at].0@ == name,
        after[at].1@ == value,
        forall|j: int| 0 <= j < before.len() && j != at ==> after[j] == before[j],
    ensures
        unique_names(after),
        entries_map(after) == entries_map(before).insert(name, value),
{
    assert forall|i: int, j: int| 0 <= i < j < after.len() implies after[i].0@ != after[j].0@ by {
        if i != at && j != at {
            assert(before[i].0@ != before[j].0@);
        } else if at < before.len() {
            if i == at {
                assert(before[at].0@ != before[j].0@);
            } else {
                assert(before[i].0@ != before[at].0@);
            }
        } else {
            assert(j == at);
            assert(before[i].0@ == after[i].0@);
        }
    }
    assert forall|k: Seq<char>| #[trigger] has_name(after, k) <==> (k == name || has_name(
        before,
        k,
    )) by {
        if has_name(after, k) {
            let j = choose|j: int| 0 <= j < after.len() && after[j].0@ == k;
            if j != at {
                assert(before[j].0@ == k);
            }
        }
        if k == name {
            assert(after[at].0@ == k);
        }
        if has_name(before, k) {
            let j = choose|j: int| 0 <= j < before.len() && before[j].0@ == k;
            if j != at {
                assert(after[j].0@ == k);
            } else {
                assert(after[at].0@ == k);
            }
        }
    }
    assert forall|k: Seq<char>| has_name(after, k) implies #[trigger] entries_map(after)[k] == (
    if k == name {
        value
    } else {
        entries_map(before)[k]
    }) by {
        let j = place_of(after, k);
        assert(0 <= j < after.len() && after[j].0@ == k);
        if k == name {
            if j != at {
                if j < at {
                    assert(after[j].0@ != after[at].0@);
                } else {
                    assert(after[at].0@ != after[j].0@);
                }
            }
        } else {
            assert(j != at);
            assert(before[j].0@ == k);
            let j2 = place_of(before, k);
            assert(0 <= j2 < before.len() && before[j2].0@ == k);
            if j2 < j {
                assert(before[j2].0@ != before[j].0@);
            } else if j < j2 {
                assert(before[j].0@ != before[j2].0@);
            }
        }
    }
    assert(entries_map(after) =~= entries_map(before).insert(name, value));
}

impl View for Captures {
    type V = Map<Seq<char>, Seq<char>>;

    closed spec fn view(&self) -> Map<Seq<char>, Seq<char>> {
        entries_map(self.entries@)
    }
}

impl Captures {
    #[verifier::type_invariant]
    spec fn inv(&self) -> bool {
        unique_names(self.entries@)
    }

    /// No captures.
    pub fn new() -> (c: Captures)
        ensures
            c@ == Map::<Seq<char>, Seq<char>>::empty(),
    {
        let c = Captures { entries: Vec::new() };
        assert(c@ =~= Map::<Seq<char>, Seq<char>>::empty());
        c
    }

    /// The place of the entry with the name `name`, if there is one.
    fn find(&self, name: &String) -> (r: Option<usize>)
        ensures
            match r {
                Some(i) => i < self.entries@.len() && self.entries@[i as int].0@ == name@,
                None => !has_name(self.entries@, name@),
            },
    {
        let mut i: usize = 0;
        while i < self.entries.len()
            invariant
                i <= self.entries@.len(),
                forall|j: int| 0 <= j < i ==> self.entries@[j].0@ != name@,
            decreases self.entries@.len() - i,
        {
            if self.entries[i].0 == *name {
                return Some(i);
            }
            i += 1;
        }
        None
    }

    /// Puts `value` under `name`, in the place of what was there before.
    pub fn insert(&mut self, name: String, value: String)
        ensures
            final(self)@ == old(self)@.insert(name@, value@),
    {
        proof {
            use_type_invariant(&*self);
        }
        let ghost before = self.entries@;
        let found = self.find(&name);
        let mut taken = Captures::new();
        core::mem::swap(self, &mut taken);
        let mut entries = taken.entries;
        let ghost at: int;
        match found {
            Some(i) => {
                proof {
                    at = i as int;
                }
                entries.set(i, (name, value));
            },
            None => {
                proof {
                    at = before.len() as int;
                }
                entries.push((name, value));
            },
        }
        proof {
            lemma_put(before, entries@, name@, value@, at);
        }
        *self = Captures { entries };
    }

    /// What stands under `name`.
    pub fn get(&self, name: &str) -> (r: Option<&String>)
        ensures
            match r {
                Some(v) => self@.contains_key(name@) && self@[name@] == v@,
                None => !self@.contains_key(name@),
            },
    {
        proof {
            use_type_invariant(self);
        }
        let owned = name.to_owned();
        match self.find(&owned) {
            Some(i) => {
                proof {
                    let j = place_of(self.entries@, name@);
                    assert(0 <= j < self.entries@.len() && self.entries@[j].0@ == name@);
                    if j < i {
                        assert(self.entries@[j].0@ != self.entries@[i as int].0@);
                    } else if i < j {
                        assert(self.entries@[i as int].0@ != self.entries@[j].0@);
                    }
                }
                Some(&self.entries[i].1)
            },
            None => None,
        }
    }

    /// How many names there are.
    pub fn len(&self) -> (n: usize)
        ensures
            n == self@.dom().len(),
            self@.dom().finite(),
    {
        proof {
            use_type_invariant(self);
            let ks = names(self.entries@);
            assert(ks.no_duplicates());
            ks.unique_seq_to_set();
            assert(self@.dom() =~= ks.to_set()) by {
                assert forall|k: Seq<char>| self@.dom().contains(k) <==> ks.to_set().contains(
                    k,
                ) by {
                    if self@.dom().contains(k) {
                        let i = choose|i: int|
                            0 <= i < self.entries@.len() && self.entries@[i].0@ == k;
                        assert(ks[i] == k);
                    }
                    if ks.to_set().contains(k) {
                        let i = choose|i: int| 0 <= i < ks.len() && ks[i] == k;
                        assert(self.entries@[i].0@ == k);
                    }
                }
            }
        }
        self.entries.len()
    }

    /// Whether there is no name at all.
    pub fn is_empty(&self) -> (b: bool)
        ensures
            b == (self@.dom().len() == 0),
    {
        self.len() == 0
    }
}

impl Captures {
    /// Whether each name of `self` stands in `other` too, with the same value.
    fn within(&self, other: &Captures) -> (r: bool)
        ensures
            r == (forall|k: Seq<char>| #[trigger]
                self@.contains_key(k) ==> other@.contains_key(k) && other@[k] == self@[k]),
    {
        proof {
            use_type_invariant(self);
        }
        let mut i: usize = 0;
        while i < self.entries.len()
            invariant
                i <= self.entries@.len(),
                unique_names(self.entries@),
                forall|j: int|
                    0 <= j < i ==> other@.contains_key(#[trigger] self.entries@[j].0@)
                        && other@[self.entries@[j].0@] == self.entries@[j].1@,
            decreases self.entries@.len() - i,
        {
            let ghost k = self.entries@[i as int].0@;
            proof {
                let j = place_of(self.entries@, k);
                assert(0 <= j < self.entries@.len() && self.entries@[j].0@ == k);
                if j < i {
                    assert(self.entries@[j].0@ != self.entries@[i as int].0@);
                } else if i < j {
                    assert(self.entries@[i as int].0@ != self.entries@[j].0@);
                }
                assert(self@.contains_key(k) && self@[k] == self.entries@[i as int].1@);
            }
            match other.get(self.entries[i].0.as_str()) {
                Some(v) => {
                    if !(*v == self.entries[i].1) {
                        return false;
                    }
                },
                None => {
                    return false;
                },
            }
            i += 1;
        }
        proof {
            assert forall|k: Seq<char>| #[trigger] self@.contains_key(k) implies other@.contains_key(
                k,
            ) && other@[k] == self@[k] by {
                let j = place_of(self.entries@, k);
                assert(0 <= j < self.entries@.len() && self.entries@[j].0@ == k);
                assert(other@.contains_key(self.entries@[j].0@));
            }
        }
        true
    }
}

impl PartialEq for Captures {
    fn eq(&self, other: &Captures) -> (r: bool) {
        let r = self.within(other) && other.within(self);
        proof {
            if r {
                assert(self@ =~= other@);
            }
        }
        r
    }
}

/// Two sets of captures are equal when they hold the same values under the
/// same names, in whatever order these were put in.
impl PartialEqSpecImpl for Captures {
    open spec fn obeys_eq_spec() -> bool {
        true
    }

    open spec fn eq_spec(&self, other: &Captures) -> bool {
        self@ == other@
    }
}

// ---------------------------------------------------------------------------
// Patterns
// ---------------------------------------------------------------------------
/// The pieces of `s` between its `c`s.
pub open spec fn split_at_each(s: Seq<char>, c: char) -> Seq<Seq<char>>
    decreases s.len(),
{
    let i = first_index_of(s, c);
    if 0 <= i < s.len() {
        seq![s.take(i)] + split_at_each(s.skip(i + 1), c)
    } else {
        seq![s]
    }
}

/// The pattern that the location `location` writes: its segments after the leading `/`.
pub open spec fn pattern_of(location: Seq<char>) -> Seq<Seq<char>> {
    split_at_each(location.drop_first(), '/')
}

/// The segments of `segs`, with a `/` between each two.
pub open spec fn joined(segs: Seq<Seq<char>>) -> Seq<char>
    decreases segs.len(),
{
    if segs.len() == 0 {
        Seq::empty()
    } else if segs.len() == 1 {
        segs[0]
    } else {
        joined(segs.drop_last()).push('/') + segs.last()
    }
}

/// What a match binds: the captures, and what the wildcard took.
pub type Bound = (Map<Seq<char>, Seq<char>>, Option<Seq<char>>);

/// Whether the segments of a URL's path from number `i` on match the
/// pattern from its segment number `i` on, and what that binds, given the
/// captures `caps` of the segments before.
pub open spec fn match_from(
    pattern: Seq<Seq<char>>,
    segs: Seq<Seq<char>>,
    i: int,
    caps: Map<Seq<char>, Seq<char>>,
) -> Option<Bound>
    decreases segs.len() - i,
{
    if i < 0 {
        None
    } else if i >= segs.len() {
        if i == pattern.len() {
            Some((caps, None))
        } else {
            None
        }
    } else if i >= pattern.len() {
        None
    } else if pattern[i].len() > 0 && pattern[i][0] == ':' {
        match_from(pattern, segs, i + 1, caps.insert(pattern[i].skip(1), segs[i]))
    } else if pattern[i].len() > 0 && pattern[i][0] == '*' {
        Some((caps, Some(joined(segs.skip(i)))))
    } else if pattern[i] == segs[i] {
        match_from(pattern, segs, i + 1, caps)
    } else {
        None
    }
}

/// Whether a URL with the path segments `segs` matches `pattern`, and what
/// that binds. A URL without path segments matches the empty pattern only.
pub open spec fn path_match(pattern: Seq<Seq<char>>, segs: Option<Seq<Seq<char>>>) -> Option<
    Bound,
> {
    match segs {
        None => if pattern.len() == 0 {
            Some((Map::empty(), None))
        } else {
            None
        },
        Some(s) => match_from(pattern, s, 0, Map::empty()),
    }
}

/// The first pattern at or after number `i` that the URL matches, with what it binds.
pub open spec fn first_match(
    patterns: Seq<Seq<Seq<char>>>,
    segs: Option<Seq<Seq<char>>>,
    i: int,
) -> Option<(int, Bound)>
    decreases patterns.len() - i,
{
    if i < 0 || i >= patterns.len() {
        None
    } else {
        match path_match(patterns[i], segs) {
            Some(b) => Some((i, b)),
            None => first_match(patterns, segs, i + 1),
        }
    }
}

/// Cuts a location into the segments of its pattern.
fn split_location(location: &[char]) -> (r: Vec<String>)
    ensures
        texts(r@) == split_at_each(location@, '/'),
{
    let mut out: Vec<String> = Vec::new();
    let mut rest: &[char] = location;
    assert(texts(out@) =~= Seq::<Seq<char>>::empty());
    assert(Seq::<Seq<char>>::empty() + split_at_each(rest@, '/') =~= split_at_each(rest@, '/'));
    loop
        invariant
            texts(out@) + split_at_each(rest@, '/') == split_at_each(location@, '/'),
        decreases rest@.len(),
    {
        let ghost done = texts(out@);
        let i = find_char(rest, '/');
        if i < rest.len() {
            out.push(to_string(slice_subrange(rest, 0, i)));
            let ghost piece = rest@.take(i as int);
            let ghost old_rest = rest@;
            rest = slice_subrange(rest, i + 1, rest.len());
            proof {
                assert(texts(out@) =~= done.push(piece));
                assert(rest@ == old_rest.skip(i + 1));
                assert(done.push(piece) + split_at_each(rest@, '/') =~= done + (seq![piece]
                    + split_at_each(rest@, '/')));
            }
        } else {
            out.push(to_string(rest));
            proof {
                assert(texts(out@) =~= done.push(rest@));
                assert(done.push(rest@) =~= done + seq![rest@]);
            }
            return out;
        }
    }
}

/// The segments of `segs` from number `i` on, with a `/` between each two.
fn join_from(segs: &Vec<String>, i: usize) -> (w: String)
    requires
        i < segs@.len(),
    ensures
        w@ == joined(texts(segs@).skip(i as int)),
{
    let ghost all = texts(segs@).skip(i as int);
    let n = segs.len();
    let mut w = segs[i].clone();
    let mut j: usize = i + 1;
    proof {
        assert(all.take(1) =~= seq![segs@[i as int]@]);
    }
    while j < segs.len()
        invariant
            i < j <= segs@.len(),
            all == texts(segs@).skip(i as int),
            w@ == joined(all.take(j - i)),
        decreases segs@.len() - j,
    {
        w.push('/');
        w.append(segs[j].as_str());
        proof {
            let next = all.take(j + 1 - i);
            assert(next.drop_last() =~= all.take(j - i));
            assert(next.last() == segs@[j as int]@);
        }
        j += 1;
    }
    assert(all.take(j - i) =~= all);
    w
}

// ---------------------------------------------------------------------------
// The router
// ---------------------------------------------------------------------------
/// The routes of a service, in the order in which they were added, and the
/// handler for a request that none of them matches.
#[derive(Debug)]
pub struct Router<U> {
    routes: Vec<(Vec<String>, Handler<U>)>,
    fallback: Handler<U>,
}

/// The mathematical value of a [`Router`]: the pattern and the handler of
/// each route, and the fallback.
pub struct RouterView<U> {
    pub patterns: Seq<Seq<Seq<char>>>,
    pub handlers: Seq<Handler<U>>,
    pub fallback: Handler<U>,
}

impl<U> View for Router<U> {
    type V = RouterView<U>;

    closed spec fn view(&self) -> RouterView<U> {
        RouterView {
            patterns: Seq::new(self.routes@.len(), |i: int| texts(self.routes@[i].0@)),
            handlers: Seq::new(self.routes@.len(), |i: int| self.routes@[i].1),
            fallback: self.fallback,
        }
    }
}

/// A router is sound when it has a handler for each pattern.
pub open spec fn router_wf<U>(r: RouterView<U>) -> bool {
    r.patterns.len() == r.handlers.len()
}

/// The router `r` with one more route.
pub open spec fn with_route<U>(r: RouterView<U>, location: Seq<char>, handler: Handler<U>)
    -> RouterView<U> {
    RouterView {
        patterns: r.patterns.push(pattern_of(location)),
        handlers: r.handlers.push(handler),
        fallback: r.fallback,
    }
}

/// The router `r` with the routes of `other` after its own.
pub open spec fn merged<U>(r: RouterView<U>, other: RouterView<U>) -> RouterView<U> {
    RouterView {
        patterns: r.patterns + other.patterns,
        handlers: r.handlers + other.handlers,
        fallback: r.fallback,
    }
}

/// `after` is `before` with `layer` around the handler of each route:
/// the patterns and the fallback are the same.
pub open spec fn is_layered<U, L: Layer<U>>(before: RouterView<U>, layer: L, after: RouterView<U>)
    -> bool {
    &&& after.patterns == before.patterns
    &&& after.fallback == before.fallback
    &&& after.handlers.len() == before.handlers.len()
    &&& forall|i: int|
        0 <= i < before.handlers.len() ==> layer.wraps(
            before.handlers[i],
            #[trigger] after.handlers[i],
        )
}

/// What a request is routed to.
pub struct Routed<U> {
    /// The handler that serves the request
    pub handler: Handler<U>,
    /// The number of the route that matched; `None` for the fallback
    pub route: Option<int>,
    /// What the `:name` segments matched
    pub captures: Map<Seq<char>, Seq<char>>,
    /// What the `*` segment matched
    pub wildcards: Option<Seq<char>>,
}

/// Where the router `r` sends a URL with the path segments `segs`: to the
/// first route that matches, or to the fallback with nothing bound.
pub open spec fn routed<U>(r: RouterView<U>, segs: Option<Seq<Seq<char>>>) -> Routed<U> {
    match first_match(r.patterns, segs, 0) {
        Some((i, b)) => Routed {
            handler: r.handlers[i],
            route: Some(i),
            captures: b.0,
            wildcards: b.1,
        },
        None => Routed {
            handler: r.fallback,
            route: None,
            captures: Map::empty(),
            wildcards: None,
        },
    }
}

impl<U> Router<U> {
    /// A router without routes. Its fallback is the built-in one.
    pub fn new() -> (r: Self)
        ensures
            r@.patterns.len() == 0,
            r@.handlers.len() == 0,
            r@.fallback == Handler::<U>::Fallback(FallbackHandler {  }),
    {
        Router { routes: Vec::new(), fallback: Handler::Fallback(FallbackHandler {  }) }
    }

    /// Adds a route after those that are there.
    ///
    /// The location is a path that begins with `/`: see the module for what
    /// its segments mean.
    pub fn route(self, location: &str, handler: Handler<U>) -> (r: Self)
        requires
            location@.len() > 0,
            location@[0] == '/',
        ensures
            r@ == with_route(self@, location@, handler),
            pattern_of(location@).len() > 0,
    {
        proof {
            lemma_pattern_nonempty(location@);
        }
        let chars = to_chars(location);
        let pattern = split_location(slice_subrange(chars.as_slice(), 1, chars.len()));
        let mut routes = self.routes;
        routes.push((pattern, handler));
        let r = Router { routes, fallback: self.fallback };
        proof {
            assert(chars@.subrange(1, chars@.len() as int) == location@.drop_first());
            assert(r@.patterns =~= with_route(self@, location@, handler).patterns);
            assert(r@.handlers =~= with_route(self@, location@, handler).handlers);
        }
        r
    }

    /// Puts the routes of `other` after those of `self`. The fallback of
    /// `self` stays; that of `other` is dropped.
    pub fn merge(self, other: Router<U>) -> (r: Router<U>)
        ensures
            r@ == merged(self@, other@),
    {
        let mut routes = self.routes;
        let mut more = other.routes;
        routes.append(&mut more);
        let r = Router { routes, fallback: self.fallback };
        proof {
            assert(r@.patterns =~= merged(self@, other@).patterns);
            assert(r@.handlers =~= merged(self@, other@).handlers);
        }
        r
    }

    /// Sets the handler for a request that no route matches.
    pub fn fallback(self, handler: Handler<U>) -> (r: Self)
        ensures
            r@.patterns == self@.patterns,
            r@.handlers == self@.handlers,
            r@.fallback == handler,
    {
        let r = Router { routes: self.routes, fallback: handler };
        proof {
            assert(r@.patterns =~= self@.patterns);
            assert(r@.handlers =~= self@.handlers);
        }
        r
    }

    /// Puts `layer` around the handler of each route that is there now.
    /// The fallback stays bare, and so does a route that is added later.
    pub fn layer<L: Layer<U>>(self, layer: L) -> (r: Self)
        ensures
            is_layered(self@, layer, r@),
    {
        let ghost before = self.routes@;
        let mut rest = self.routes;
        let mut reversed: Vec<(Vec<String>, Handler<U>)> = Vec::new();
        while rest.len() > 0
            invariant
                rest@.len() + reversed@.len() == before.len(),
                forall|i: int| 0 <= i < rest@.len() ==> rest@[i] == before[i],
                forall|i: int|
                    0 <= i < reversed@.len() ==> reversed@[i] == before[before.len() - 1 - i],
            decreases rest@.len(),
        {
            let entry = rest.pop().unwrap();
            reversed.push(entry);
        }
        let mut routes: Vec<(Vec<String>, Handler<U>)> = Vec::new();
        while reversed.len() > 0
            invariant
                routes@.len() + reversed@.len() == before.len(),
                forall|i: int|
                    0 <= i < reversed@.len() ==> reversed@[i] == before[before.len() - 1 - i],
                forall|i: int|
                    0 <= i < routes@.len() ==> (#[trigger] routes@[i]).0 == before[i].0
                        && layer.wraps(before[i].1, routes@[i].1),
            decreases reversed@.len(),
        {
            let ghost done = routes@;
            let ghost k = routes@.len() as int;
            let (pattern, handler) = reversed.pop().unwrap();
            assert(pattern == before[k].0 && handler == before[k].1);
            let wrapped = layer.layer(handler);
            routes.push((pattern, wrapped));
            proof {
                assert forall|i: int| 0 <= i < routes@.len() implies (#[trigger] routes@[i]).0
                    == before[i].0 && layer.wraps(before[i].1, routes@[i].1) by {
                    if i < k {
                        assert(routes@[i] == done[i]);
                    }
                }
            }
        }
        let r = Router { routes, fallback: self.fallback };
        proof {
            assert(before.len() == self@.patterns.len());
            assert forall|i: int| 0 <= i < self@.patterns.len() implies r@.patterns[i]
                == self@.patterns[i] by {
                assert(routes@[i].0 == before[i].0);
            }
            assert(r@.patterns =~= self@.patterns);
            assert forall|i: int| 0 <= i < self@.handlers.len() implies layer.wraps(
                self@.handlers[i],
                #[trigger] r@.handlers[i],
            ) by {
                assert(routes@[i].0 == before[i].0);
            }
        }
        r
    }

    /// Says whether the URL `url` matches the pattern `path`, and what that binds.
    pub fn path_matches(path: &[String], url: &AgiUrl) -> (r: Option<(Captures, Option<String>)>)
        ensures
            match r {
                Some((captures, wildcards)) => path_match(texts(path@), url@.path_segments) == Some(
                    (captures@, text_view(wildcards)),
                ),
                None => path_match(texts(path@), url@.path_segments) is None,
            },
    {
        let segs = match url.path_segments() {
            Some(s) => s,
            None => {
                if path.len() == 0 {
                    return Some((Captures::new(), None));
                }
                return None;
            },
        };
        let ghost pattern = texts(path@);
        let ghost all = texts(segs@);
        let mut captures = Captures::new();
        let mut i: usize = 0;
        while i < segs.len()
            invariant
                i <= segs@.len(),
                pattern == texts(path@),
                all == texts(segs@),
                url@.path_segments == Some(all),
                match_from(pattern, all, i as int, captures@) == match_from(
                    pattern,
                    all,
                    0,
                    Map::empty(),
                ),
            decreases segs@.len() - i,
        {
            if i >= path.len() {
                return None;
            }
            let p = to_chars(path[i].as_str());
            assert(p@ == pattern[i as int]);
            assert(all[i as int] == segs@[i as int]@);
            if p.len() > 0 && p[0] == ':' {
                let name = to_string(slice_subrange(p.as_slice(), 1, p.len()));
                assert(name@ == pattern[i as int].skip(1));
                captures.insert(name, segs[i].clone());
            } else if p.len() > 0 && p[0] == '*' {
                return Some((captures, Some(join_from(segs, i))));
            } else if !(path[i] == segs[i]) {
                return None;
            }
            i += 1;
        }
        if i == path.len() {
            Some((captures, None))
        } else {
            None
        }
    }

    /// Finds the handler for a request, with what its route binds.
    ///
    /// The request must be a FastAGI request.
    pub fn route_request<'a>(&'a self, request: &AGIVariableDump) -> (r: (
        &'a Handler<U>,
        Captures,
        Option<String>,
    ))
        requires
            request@.request is FastAGI,
        ensures
            *r.0 == routed(self@, request@.request->FastAGI_0.path_segments).handler,
            r.1@ == routed(self@, request@.request->FastAGI_0.path_segments).captures,
            text_view(r.2) == routed(self@, request@.request->FastAGI_0.path_segments).wildcards,
    {
        match &request.request {
            AGIRequestType::FastAGI(url) => {
                let mut i: usize = 0;
                while i < self.routes.len()
                    invariant
                        i <= self.routes@.len(),
                        request@.request == RequestView::FastAGI(url@),
                        first_match(self@.patterns, url@.path_segments, i as int) == first_match(
                            self@.patterns,
                            url@.path_segments,
                            0,
                        ),
                    decreases self.routes@.len() - i,
                {
                    assert(self@.patterns[i as int] == texts(self.routes@[i as int].0@));
                    assert(self@.handlers[i as int] == self.routes@[i as int].1);
                    match Self::path_matches(self.routes[i].0.as_slice(), url) {
                        Some((captures, wildcards)) => {
                            return (&self.routes[i].1, captures, wildcards);
                        },
                        None => {},
                    }
                    i += 1;
                }
                (&self.fallback, Captures::new(), None)
            },
            AGIRequestType::File(_) => vstd::pervasive::unreached(),
        }
    }
}

/// A pattern has at least one segment.
pub proof fn lemma_pattern_nonempty(location: Seq<char>)
    ensures
        pattern_of(location).len() > 0,
{
    let s = location.drop_first();
    let i = first_index_of(s, '/');
    if 0 <= i < s.len() {
        assert(split_at_each(s, '/') == seq![s.take(i)] + split_at_each(s.skip(i + 1), '/'));
    }
}

impl<U> Router<U> {
    /// A router has a handler for each pattern.
    pub proof fn lemma_view_wf(self)
        ensures
            router_wf(self@),
    {
    }
}

/// Route-order determinism: two routers with the same patterns in the same
/// order send every URL to the route of the same number; and the route that
/// is taken is the first one that matches.
pub proof fn lemma_route_order<U>(a: RouterView<U>, b: RouterView<U>, segs: Option<Seq<Seq<char>>>)
    requires
        a.patterns == b.patterns,
    ensures
        routed(a, segs).route == routed(b, segs).route,
        routed(a, segs).captures == routed(b, segs).captures,
        routed(a, segs).wildcards == routed(b, segs).wildcards,
        a.handlers == b.handlers && a.fallback == b.fallback ==> routed(a, segs) == routed(
            b,
            segs,
        ),
        match routed(a, segs).route {
            Some(i) => 0 <= i < a.patterns.len() && path_match(a.patterns[i], segs) is Some
                && forall|j: int| 0 <= j < i ==> path_match(a.patterns[j], segs) is None,
            None => forall|j: int| 0 <= j < a.patterns.len() ==> path_match(a.patterns[j], segs)
                is None,
        },
{
    lemma_first_match(a.patterns, segs, 0);
}

/// What `first_match` finds is the first pattern that matches.
pub proof fn lemma_first_match(
    patterns: Seq<Seq<Seq<char>>>,
    segs: Option<Seq<Seq<char>>>,
    from: int,
)
    requires
        0 <= from,
    ensures
        match first_match(patterns, segs, from) {
            Some((i, b)) => from <= i < patterns.len() && path_match(patterns[i], segs) == Some(b)
                && forall|j: int| from <= j < i ==> path_match(patterns[j], segs) is None,
            None => forall|j: int|
                from <= j < patterns.len() ==> path_match(patterns[j], segs) is None,
        },
    decreases patterns.len() - from,
{
    if from < patterns.len() {
        if path_match(patterns[from], segs) is None {
            lemma_first_match(patterns, segs, from + 1);
        }
    }
}

/// Layer scope: when a layer is put on a router and a route is added after
/// that, the layer is around the handler of each route that was there
/// before, the new route has its handler bare, and the fallback is the one
/// from before the layer.
pub proof fn lemma_layer_scope<U, L: Layer<U>>(
    before: RouterView<U>,
    layer: L,
    layered: RouterView<U>,
    location: Seq<char>,
    handler: Handler<U>,
)
    requires
        router_wf(before),
        is_layered(before, layer, layered),
    ensures
        ({
            let after = with_route(layered, location, handler);
            &&& after.handlers.len() == before.handlers.len() + 1
            &&& forall|i: int|
                0 <= i < before.handlers.len() ==> after.patterns[i] == before.patterns[i]
                    && layer.wraps(before.handlers[i], #[trigger] after.handlers[i])
            &&& after.patterns[before.handlers.len() as int] == pattern_of(location)
            &&& after.handlers[before.handlers.len() as int] == handler
            &&& after.fallback == before.fallback
        }),
{
    let after = with_route(layered, location, handler);
    assert forall|i: int| 0 <= i < before.handlers.len() implies after.patterns[i]
        == before.patterns[i] && layer.wraps(before.handlers[i], #[trigger] after.handlers[i]) by {
        assert(after.handlers[i] == layered.handlers[i]);
    }
}

} // verus!
