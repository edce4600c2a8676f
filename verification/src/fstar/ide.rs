//! Matching F*'s replies to the queries that asked for them.
//!
//! Every query gets a fresh identifier; F* tags each line it prints with the
//! identifier of the query it answers (possibly followed by `.` and more).
//! A table maps identifiers to the place where the replies go, and forgets a
//! query once its last reply has passed.

use vstd::prelude::*;
use crate::fstar::bare_ide::FullQuery;
use crate::fstar::{Message, ProgressMessage, ProgressMessageOrNull, Query, ResponseOrMessage};
use crate::text::{
    decimal, lemma_decimal_digits, lemma_decimal_injective, lemma_prefix_before_absent,
    prefix_before, prefix_before_char, u64_to_decimal,
};

verus! {

/// Which reply ends the exchange of a query.
#[derive(PartialEq, Eq, Structural, Clone, Copy, Debug)]
pub enum LastMessageDecider {
    /// A full-buffer query ends with the "full-buffer-finished" progress message.
    FullBuffer,
    /// Any other query ends with its response.
    Other,
}

/// The decider for a query: full-buffer queries end on their finishing
/// message, all others on their response.
pub open spec fn decider_for(query: Query) -> LastMessageDecider {
    match query {
        Query::FullBuffer(_) => LastMessageDecider::FullBuffer,
        _ => LastMessageDecider::Other,
    }
}

/// Whether `msg` is the last line that F* prints for a query with decider `d`.
pub open spec fn ends_exchange(d: LastMessageDecider, msg: ResponseOrMessage) -> bool {
    match d {
        LastMessageDecider::Other => msg is Response,
        LastMessageDecider::FullBuffer => msg matches ResponseOrMessage::Message(
            Message::Progress(ProgressMessageOrNull::Known(ProgressMessage::FullBufferFinished)),
        ),
    }
}

impl LastMessageDecider {
    pub fn new(query: &Query) -> (d: Self)
        ensures
            d == decider_for(*query),
    {
        match query {
            Query::FullBuffer(_) => LastMessageDecider::FullBuffer,
            _ => LastMessageDecider::Other,
        }
    }

    pub fn decide(&self, resp_or_msg: &ResponseOrMessage) -> (last: bool)
        ensures
            last == ends_exchange(*self, *resp_or_msg),
    {
        match self {
            LastMessageDecider::Other => match resp_or_msg {
                ResponseOrMessage::Response(_) => true,
                _ => false,
            },
            LastMessageDecider::FullBuffer => match resp_or_msg {
                ResponseOrMessage::Message(
                    Message::Progress(ProgressMessageOrNull::Known(ProgressMessage::FullBufferFinished)),
                ) => true,
                _ => false,
            },
        }
    }
}

/// The identifier of the query that a reply tag names: the tag up to its
/// first `.`.
pub open spec fn normalized_query_id(query_id: Seq<char>) -> Seq<char> {
    prefix_before(query_id, '.')
}

pub fn normalize_query_id(query_id: &str) -> (r: &str)
    ensures
        r@ == normalized_query_id(query_id@),
{
    prefix_before_char(query_id, '.')
}

/// The numbering of the queries sent to one F* process.
pub struct QueryNumbering {
    pub current_query_id: u64,
}

impl QueryNumbering {
    pub fn new() -> (n: Self)
        ensures
            n.current_query_id == 0,
    {
        QueryNumbering { current_query_id: 0 }
    }

    /// Tags `query` with the next identifier (the decimal rendering of the
    /// counter) and gives the decider for its replies.
    pub fn number_query(&mut self, query: Query) -> (r: (FullQuery, LastMessageDecider))
        requires
            old(self).current_query_id < u64::MAX,
        ensures
            final(self).current_query_id == old(self).current_query_id + 1,
            r.0.query_id@ == decimal(old(self).current_query_id as nat),
            r.0.query == query,
            r.1 == decider_for(query),
    {
        let query_id = u64_to_decimal(self.current_query_id);
        self.current_query_id = self.current_query_id + 1;
        let last_message_decider = LastMessageDecider::new(&query);
        (FullQuery { query_id, query }, last_message_decider)
    }
}

/// Where the replies of one query go.
pub struct Route<S> {
    pub query_id: String,
    pub sender: S,
    pub decider: LastMessageDecider,
}

/// The queries whose exchange is still open, by identifier.
///
/// The identifiers are strings: a reply is found by its tag up to the first
/// `.` but forgotten by its tag as received, so the table is keyed by the
/// text of the tag rather than by the query's number. It is a vector of
/// routes whose identifiers are kept distinct (the type invariant), read as a
/// map through its view; std's hash map offers no contract over string keys
/// that the routing laws could be proved from.
pub struct RouteTable<S> {
    routes: Vec<Route<S>>,
}

impl<S> RouteTable<S> {
    #[verifier::type_invariant]
    closed spec fn keys_distinct(self) -> bool {
        forall|i: int, j: int|
            0 <= i < self.routes@.len() && 0 <= j < self.routes@.len() && i != j
                ==> #[trigger] self.routes@[i].query_id@ != #[trigger] self.routes@[j].query_id@
    }

    closed spec fn has_key(self, k: Seq<char>) -> bool {
        exists|i: int| 0 <= i < self.routes@.len() && #[trigger] self.routes@[i].query_id@ == k
    }

    closed spec fn index_of(self, k: Seq<char>) -> int {
        choose|i: int| 0 <= i < self.routes@.len() && #[trigger] self.routes@[i].query_id@ == k
    }

    /// The open queries: identifier to the sender of its replies and its decider.
    pub closed spec fn view(self) -> Map<Seq<char>, (S, LastMessageDecider)> {
        Map::new(
            |k: Seq<char>| self.has_key(k),
            |k: Seq<char>|
                {
                    let r = self.routes@[self.index_of(k)];
                    (r.sender, r.decider)
                },
        )
    }

    proof fn lemma_index_unique(self, i: int)
        requires
            self.keys_distinct(),
            0 <= i < self.routes@.len(),
        ensures
            self.has_key(self.routes@[i].query_id@),
            self.index_of(self.routes@[i].query_id@) == i,
    {
        let k = self.routes@[i].query_id@;
        assert(self.has_key(k));
        let j = self.index_of(k);
        assert(self.routes@[j].query_id@ == k);
    }

    pub fn new() -> (t: Self)
        ensures
            t@ == Map::<Seq<char>, (S, LastMessageDecider)>::empty(),
    {
        let t = RouteTable { routes: Vec::new() };
        assert(t@ =~= Map::<Seq<char>, (S, LastMessageDecider)>::empty());
        t
    }

    fn find(&self, key: &String) -> (r: Option<usize>)
        ensures
            match r {
                None => !self@.contains_key(key@),
                Some(i) => i < self.routes@.len() && self.routes@[i as int].query_id@ == key@,
            },
    {
        let mut i: usize = 0;
        while i < self.routes.len()
            invariant
                i <= self.routes@.len(),
                forall|j: int| 0 <= j < i ==> self.routes@[j].query_id@ != key@,
            decreases self.routes@.len() - i,
        {
            if self.routes[i].query_id == *key {
                return Some(i);
            }
            i = i + 1;
        }
        None
    }

    /// Registers the replies of `query_id` to go to `sender`; a route already
    /// registered under that identifier is replaced.
    pub fn insert(&mut self, query_id: String, sender: S, decider: LastMessageDecider)
        ensures
            final(self)@ == old(self)@.insert(query_id@, (sender, decider)),
    {
        proof {
            use_type_invariant(&*self);
        }
        let ghost key = query_id@;
        let ghost old_table = *self;
        let found = self.find(&query_id);
        let mut routes: Vec<Route<S>> = Vec::new();
        std::mem::swap(&mut routes, &mut self.routes);
        let ghost before_removal = routes@;
        match found {
            Some(i) => {
                routes.remove(i);
            },
            None => {},
        }
        let ghost after_removal = routes@;
        assert(forall|j: int| 0 <= j < after_removal.len() ==> #[trigger] after_removal[j].query_id@ != key) by {
            assert forall|j: int| 0 <= j < after_removal.len() implies #[trigger] after_removal[j].query_id@ != key by {
                match found {
                    Some(i) => {
                        if j < i {
                            assert(after_removal[j] == before_removal[j]);
                        } else {
                            assert(after_removal[j] == before_removal[j + 1]);
                        }
                    },
                    None => {
                        assert(!old_table.has_key(key));
                        assert(after_removal[j] == before_removal[j]);
                    },
                }
            }
        }
        routes.push(Route { query_id, sender, decider });
        self.routes = routes;
        proof {
            let new_table = *self;
            let n = new_table.routes@.len() - 1;
            assert(new_table.keys_distinct());
            assert forall|k: Seq<char>| #[trigger] new_table@.contains_key(k) == old_table@.insert(key, (sender, decider)).contains_key(k) by {
                if k == key {
                    assert(new_table.routes@[n].query_id@ == key);
                } else {
                    if new_table.has_key(k) {
                        let j = new_table.index_of(k);
                        assert(j < n);
                        match found {
                            Some(i) => {
                                if j < i {
                                    assert(old_table.routes@[j].query_id@ == k);
                                } else {
                                    assert(old_table.routes@[j + 1].query_id@ == k);
                                }
                            },
                            None => {
                                assert(old_table.routes@[j].query_id@ == k);
                            },
                        }
                    }
                    if old_table.has_key(k) {
                        let j = old_table.index_of(k);
                        match found {
                            Some(i) => {
                                assert(j != i);
                                if j < i {
                                    assert(new_table.routes@[j].query_id@ == k);
                                } else {
                                    assert(new_table.routes@[j - 1].query_id@ == k);
                                }
                            },
                            None => {
                                assert(new_table.routes@[j].query_id@ == k);
                            },
                        }
                    }
                }
            }
            assert forall|k: Seq<char>| #[trigger] new_table@.contains_key(k) implies new_table@[k] == old_table@.insert(key, (sender, decider))[k] by {
                if k == key {
                    new_table.lemma_index_unique(n);
                } else {
                    let j = new_table.index_of(k);
                    new_table.lemma_index_unique(j);
                    let oj: int = match found {
                        Some(i) => if j < i { j } else { j + 1 },
                        None => j,
                    };
                    assert(old_table.routes@[oj] == new_table.routes@[j]);
                    old_table.lemma_index_unique(oj);
                }
            }
            assert(new_table@ =~= old_table@.insert(key, (sender, decider)));
        }
    }

    /// Forgets the query registered under exactly `query_id`, if any.
    pub fn remove(&mut self, query_id: &str)
        ensures
            final(self)@ == old(self)@.remove(query_id@),
    {
        proof {
            use_type_invariant(&*self);
        }
        let key = query_id.to_owned();
        let ghost old_table = *self;
        let found = self.find(&key);
        match found {
            None => {
                assert(self@ =~= old_table@.remove(key@));
            },
            Some(i) => {
                let mut routes: Vec<Route<S>> = Vec::new();
        std::mem::swap(&mut routes, &mut self.routes);
                routes.remove(i);
                self.routes = routes;
                proof {
                    let new_table = *self;
                    assert forall|a: int, b: int|
                        0 <= a < new_table.routes@.len() && 0 <= b < new_table.routes@.len() && a != b
                        implies #[trigger] new_table.routes@[a].query_id@ != #[trigger] new_table.routes@[b].query_id@ by {
                        let oa = if a < i { a } else { a + 1 };
                        let ob = if b < i { b } else { b + 1 };
                        assert(new_table.routes@[a] == old_table.routes@[oa]);
                        assert(new_table.routes@[b] == old_table.routes@[ob]);
                    }
                    assert(new_table.keys_distinct());
                    assert forall|k: Seq<char>| #[trigger] new_table@.contains_key(k) == old_table@.remove(key@).contains_key(k) by {
                        if new_table.has_key(k) {
                            let j = new_table.index_of(k);
                            let oj = if j < i { j } else { j + 1 };
                            assert(old_table.routes@[oj].query_id@ == k);
                            assert(oj != i);
                        }
                        if old_table.has_key(k) && k != key@ {
                            let j = old_table.index_of(k);
                            assert(j != i);
                            let nj = if j < i { j } else { j - 1 };
                            assert(new_table.routes@[nj].query_id@ == k);
                        }
                    }
                    assert forall|k: Seq<char>| #[trigger] new_table@.contains_key(k) implies new_table@[k] == old_table@.remove(key@)[k] by {
                        let j = new_table.index_of(k);
                        new_table.lemma_index_unique(j);
                        let oj = if j < i { j } else { j + 1 };
                        assert(old_table.routes@[oj] == new_table.routes@[j]);
                        old_table.lemma_index_unique(oj);
                    }
                    assert(new_table@ =~= old_table@.remove(key@));
                }
            },
        }
    }

    /// Where a reply tagged `query_id` goes: the sender registered under the
    /// normalized tag, and whether this reply is the last of its exchange;
    /// `None` when no query is registered under that identifier.
    pub fn dispatch(&self, query_id: &str, resp_or_msg: &ResponseOrMessage) -> (r: Option<(&S, bool)>)
        ensures
            ({
                let k = normalized_query_id(query_id@);
                match r {
                    None => !self@.contains_key(k),
                    Some((sender, last)) => {
                        &&& self@.contains_key(k)
                        &&& *sender == self@[k].0
                        &&& last == ends_exchange(self@[k].1, *resp_or_msg)
                    },
                }
            }),
    {
        proof {
            use_type_invariant(self);
        }
        let key = normalize_query_id(query_id).to_owned();
        match self.find(&key) {
            None => None,
            Some(i) => {
                proof {
                    self.lemma_index_unique(i as int);
                }
                let route = &self.routes[i];
                let last = route.decider.decide(resp_or_msg);
                Some((&route.sender, last))
            },
        }
    }
}

/// Identifiers given to distinct query numbers differ, so two queries
/// never share a route.
pub proof fn law_query_ids_distinct(a: u64, b: u64)
    requires
        a != b,
    ensures
        decimal(a as nat) != decimal(b as nat),
{
    if decimal(a as nat) == decimal(b as nat) {
        lemma_decimal_injective(a as nat, b as nat);
    }
}

/// The replies to a numbered query, whether tagged with its identifier alone
/// or followed by `.` and more, reach the route registered under that
/// identifier.
pub proof fn law_reply_tag_names_query(n: u64, rest: Seq<char>)
    ensures
        normalized_query_id(decimal(n as nat)) == decimal(n as nat),
        normalized_query_id(decimal(n as nat) + seq!['.'] + rest) == decimal(n as nat),
{
    lemma_decimal_digits(n as nat);
    let d = decimal(n as nat);
    assert(!d.contains('.')) by {
        if d.contains('.') {
            let i = choose|i: int| 0 <= i < d.len() && d[i] == '.';
            assert(crate::text::is_digit_char(d[i]));
        }
    }
    lemma_prefix_before_absent(d, '.');
    crate::text::lemma_prefix_before_split(d, '.', rest);
}


/// A query registered under its number receives the replies tagged with
/// that number, alone or followed by `.` and more; once its route is
/// removed, such replies reach nothing.
pub proof fn law_registered_query_receives_replies<S>(
    table: Map<Seq<char>, (S, LastMessageDecider)>,
    n: u64,
    route: (S, LastMessageDecider),
    rest: Seq<char>,
)
    ensures
        ({
            let id = decimal(n as nat);
            let t = table.insert(id, route);
            &&& t.contains_key(normalized_query_id(id))
            &&& t[normalized_query_id(id)] == route
            &&& t.contains_key(normalized_query_id(id + seq!['.'] + rest))
            &&& t[normalized_query_id(id + seq!['.'] + rest)] == route
            &&& !t.remove(id).contains_key(normalized_query_id(id + seq!['.'] + rest))
        }),
{
    law_reply_tag_names_query(n, rest);
}


/// One reply taken by the receive loop: the route of the reply's normalized
/// tag, if there is one, gets the reply (`delivered` is its sender), and when
/// the reply ends that query's exchange the route registered under the tag
/// as received is removed; a reply that names no open query is dropped and
/// the table stays as it was. This is `RouteTable::dispatch` followed, when
/// it says the reply is the last, by `RouteTable::remove`.
pub open spec fn reply_step<S>(
    before: Map<Seq<char>, (S, LastMessageDecider)>,
    query_id: Seq<char>,
    resp_or_msg: ResponseOrMessage,
    after: Map<Seq<char>, (S, LastMessageDecider)>,
    delivered: Option<S>,
) -> bool {
    let k = normalized_query_id(query_id);
    if before.contains_key(k) {
        &&& delivered == Some(before[k].0)
        &&& after == (if ends_exchange(before[k].1, resp_or_msg) { before.remove(query_id) } else { before })
    } else {
        &&& delivered is None
        &&& after == before
    }
}

/// Whether one of the first `i` replies, tagged exactly `k`, ended an
/// exchange decided by `d`.
pub open spec fn ended_before(ids: Seq<Seq<char>>, rs: Seq<ResponseOrMessage>, i: int, k: Seq<char>, d: LastMessageDecider) -> bool {
    exists|j: int| 0 <= j < i && ids[j] == k && #[trigger] ends_exchange(d, rs[j])
}

/// Whether the route of `k` registered in `t0` is still open after the first
/// `i` replies.
pub open spec fn route_open<S>(
    t0: Map<Seq<char>, (S, LastMessageDecider)>,
    ids: Seq<Seq<char>>,
    rs: Seq<ResponseOrMessage>,
    i: int,
    k: Seq<char>,
) -> bool {
    t0.contains_key(k) && !ended_before(ids, rs, i, k, t0[k].1)
}

/// The table `t` after the first `i` replies holds exactly the routes of
/// `t0` that are still open, unchanged.
pub open spec fn open_routes_after<S>(
    t: Map<Seq<char>, (S, LastMessageDecider)>,
    t0: Map<Seq<char>, (S, LastMessageDecider)>,
    ids: Seq<Seq<char>>,
    rs: Seq<ResponseOrMessage>,
    i: int,
) -> bool {
    forall|k: Seq<char>|
        (#[trigger] t.contains_key(k)) == route_open(t0, ids, rs, i, k) && (t.contains_key(k) ==> t[k] == t0[k])
}

/// Reply `i` goes to the sender of the open route of its normalized tag, and
/// nowhere when that route is not open.
pub open spec fn delivered_after<S>(
    delivered: Option<S>,
    t0: Map<Seq<char>, (S, LastMessageDecider)>,
    ids: Seq<Seq<char>>,
    rs: Seq<ResponseOrMessage>,
    i: int,
) -> bool {
    let k = normalized_query_id(ids[i]);
    delivered == (if route_open(t0, ids, rs, i, k) { Some(t0[k].0) } else { None })
}

proof fn lemma_reply_stream_prefix<S>(
    tables: Seq<Map<Seq<char>, (S, LastMessageDecider)>>,
    ids: Seq<Seq<char>>,
    rs: Seq<ResponseOrMessage>,
    delivered: Seq<Option<S>>,
    n: int,
)
    requires
        tables.len() == ids.len() + 1,
        rs.len() == ids.len(),
        delivered.len() == ids.len(),
        forall|k: Seq<char>| #[trigger] tables[0].contains_key(k) ==> !k.contains('.'),
        forall|i: int| 0 <= i < ids.len() ==> #[trigger] reply_step(tables[i], ids[i], rs[i], tables[i + 1], delivered[i]),
        0 <= n <= ids.len(),
    ensures
        open_routes_after(tables[n], tables[0], ids, rs, n),
    decreases n,
{
    let t0 = tables[0];
    if n == 0 {
        assert forall|k: Seq<char>| (#[trigger] t0.contains_key(k)) == route_open(t0, ids, rs, 0, k) by {
            if t0.contains_key(k) {
                assert(!ended_before(ids, rs, 0, k, t0[k].1));
            }
        }
    } else {
        let i = n - 1;
        lemma_reply_stream_prefix(tables, ids, rs, delivered, i);
        assert(reply_step(tables[i], ids[i], rs[i], tables[i + 1], delivered[i]));
        let before = tables[i];
        let after = tables[i + 1];
        let id = ids[i];
        let kk = normalized_query_id(id);
        assert forall|k: Seq<char>|
            (#[trigger] after.contains_key(k)) == route_open(t0, ids, rs, n, k)
                && (after.contains_key(k) ==> after[k] == t0[k]) by {
            if t0.contains_key(k) {
                let d = t0[k].1;
                assert(ended_before(ids, rs, n, k, d) == (ended_before(ids, rs, i, k, d) || (id == k
                    && ends_exchange(d, rs[i])))) by {
                    if ended_before(ids, rs, n, k, d) {
                        let j = choose|j: int| 0 <= j < n && ids[j] == k && #[trigger] ends_exchange(d, rs[j]);
                        if j < i {
                            assert(ended_before(ids, rs, i, k, d));
                        }
                    }
                    if ended_before(ids, rs, i, k, d) {
                        let j = choose|j: int| 0 <= j < i && ids[j] == k && #[trigger] ends_exchange(d, rs[j]);
                        assert(ended_before(ids, rs, n, k, d));
                    }
                    if id == k && ends_exchange(d, rs[i]) {
                        assert(ended_before(ids, rs, n, k, d));
                    }
                }
                if id == k {
                    assert(!k.contains('.'));
                    lemma_prefix_before_absent(k, '.');
                    assert(kk == k);
                }
            } else {
                assert(!before.contains_key(k));
            }
            if before.contains_key(id) {
                assert(!id.contains('.'));
                lemma_prefix_before_absent(id, '.');
            }
        }
    }
}

/// The receive loop over F*'s replies: when a table of routes whose
/// identifiers hold no `.` (as the numbers given to queries do) takes the
/// replies tagged `ids` with contents `rs` one by one (going through
/// `tables`, reply `i` reaching `delivered[i]`), then after each prefix of the
/// replies the table holds exactly the routes that no earlier reply tagged
/// with their identifier has closed, each unchanged; each reply reaches the
/// sender of the route of its normalized tag while that route is open, in
/// the order the replies came, and is dropped otherwise.
pub proof fn law_reply_stream<S>(
    tables: Seq<Map<Seq<char>, (S, LastMessageDecider)>>,
    ids: Seq<Seq<char>>,
    rs: Seq<ResponseOrMessage>,
    delivered: Seq<Option<S>>,
)
    requires
        tables.len() == ids.len() + 1,
        rs.len() == ids.len(),
        delivered.len() == ids.len(),
        forall|k: Seq<char>| #[trigger] tables[0].contains_key(k) ==> !k.contains('.'),
        forall|i: int| 0 <= i < ids.len() ==> #[trigger] reply_step(tables[i], ids[i], rs[i], tables[i + 1], delivered[i]),
    ensures
        forall|n: int| 0 <= n <= ids.len() ==> #[trigger] open_routes_after(tables[n], tables[0], ids, rs, n),
        forall|i: int| 0 <= i < ids.len() ==> #[trigger] delivered_after(delivered[i], tables[0], ids, rs, i),
{
    assert forall|n: int| 0 <= n <= ids.len() implies #[trigger] open_routes_after(tables[n], tables[0], ids, rs, n) by {
        lemma_reply_stream_prefix(tables, ids, rs, delivered, n);
    }
    assert forall|i: int| 0 <= i < ids.len() implies #[trigger] delivered_after(delivered[i], tables[0], ids, rs, i) by {
        lemma_reply_stream_prefix(tables, ids, rs, delivered, i);
        assert(reply_step(tables[i], ids[i], rs[i], tables[i + 1], delivered[i]));
        let k = normalized_query_id(ids[i]);
        assert(tables[i].contains_key(k) == route_open(tables[0], ids, rs, i, k));
    }
}


/// A full-buffer exchange ends only on F*'s finishing message: for every
/// reply, the exchange of a full-buffer query ends exactly when the reply is
/// the "full-buffer-finished" progress message, so its start, its fragment
/// reports and its responses leave the route open. Every other exchange ends
/// exactly on a response, never on a message.
pub proof fn law_exchanges_end_on_their_last_reply(m: ResponseOrMessage)
    ensures
        ends_exchange(LastMessageDecider::FullBuffer, m) <==> m == ResponseOrMessage::Message(
            Message::Progress(ProgressMessageOrNull::Known(ProgressMessage::FullBufferFinished)),
        ),
        ends_exchange(LastMessageDecider::Other, m) <==> m is Response,
        !ends_exchange(LastMessageDecider::FullBuffer, ResponseOrMessage::Message(
            Message::Progress(ProgressMessageOrNull::Known(ProgressMessage::FullBufferStarted)),
        )),
{
}

} // verus!
