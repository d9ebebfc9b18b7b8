//! Bounded buffers of what the page logged and fetched, for agents to query.

use crate::text;
use std::collections::VecDeque;
use vstd::prelude::*;
use vstd::utf8::*;

verus! {

/// How many bytes of request and response bodies the network buffer may hold.
pub const NETWORK_BODY_BUDGET_BYTES: usize = 536870912;

/// One console message.
#[derive(Debug)]
pub struct ConsoleEntry {
    pub seq: u64,
    pub ts_ms: u64,
    pub level: String,
    pub text: String,
    pub url: Option<String>,
    pub line: Option<u32>,
}

/// What a console message holds.
pub struct ConsoleRecord {
    pub seq: u64,
    pub ts_ms: u64,
    pub level: Seq<char>,
    pub text: Seq<char>,
    pub url: Option<Seq<char>>,
    pub line: Option<u32>,
}

impl View for ConsoleEntry {
    type V = ConsoleRecord;

    open spec fn view(&self) -> ConsoleRecord {
        ConsoleRecord {
            seq: self.seq,
            ts_ms: self.ts_ms,
            level: self.level@,
            text: self.text@,
            url: text::opt_view(self.url),
            line: self.line,
        }
    }
}

impl Clone for ConsoleEntry {
    fn clone(&self) -> (r: Self)
        ensures
            r == *self,
    {
        ConsoleEntry {
            seq: self.seq,
            ts_ms: self.ts_ms,
            level: self.level.clone(),
            text: self.text.clone(),
            url: text::clone_opt(&self.url),
            line: self.line,
        }
    }
}

/// One network event: a request, a response or a failure.
#[derive(Debug)]
pub struct NetworkEntry {
    pub seq: u64,
    pub ts_ms: u64,
    pub kind: String,
    pub method: Option<String>,
    pub url: String,
    pub status: Option<i64>,
    pub mime: Option<String>,
    pub request_id: String,
    pub request_body: Option<String>,
    pub response_body: Option<String>,
    pub response_body_base64: Option<bool>,
}

/// What a network event holds.
pub struct NetworkRecord {
    pub seq: u64,
    pub ts_ms: u64,
    pub kind: Seq<char>,
    pub method: Option<Seq<char>>,
    pub url: Seq<char>,
    pub status: Option<i64>,
    pub mime: Option<Seq<char>>,
    pub request_id: Seq<char>,
    pub request_body: Option<Seq<char>>,
    pub response_body: Option<Seq<char>>,
    pub response_body_base64: Option<bool>,
}

impl View for NetworkEntry {
    type V = NetworkRecord;

    open spec fn view(&self) -> NetworkRecord {
        NetworkRecord {
            seq: self.seq,
            ts_ms: self.ts_ms,
            kind: self.kind@,
            method: text::opt_view(self.method),
            url: self.url@,
            status: self.status,
            mime: text::opt_view(self.mime),
            request_id: self.request_id@,
            request_body: text::opt_view(self.request_body),
            response_body: text::opt_view(self.response_body),
            response_body_base64: self.response_body_base64,
        }
    }
}

impl Clone for NetworkEntry {
    fn clone(&self) -> (r: Self)
        ensures
            r == *self,
    {
        NetworkEntry {
            seq: self.seq,
            ts_ms: self.ts_ms,
            kind: self.kind.clone(),
            method: text::clone_opt(&self.method),
            url: self.url.clone(),
            status: self.status,
            mime: text::clone_opt(&self.mime),
            request_id: self.request_id.clone(),
            request_body: text::clone_opt(&self.request_body),
            response_body: text::clone_opt(&self.response_body),
            response_body_base64: self.response_body_base64,
        }
    }
}

/// An answer to a console query: the entries asked for, how many entries the
/// buffer has dropped since the start, and the last number given to any entry.
#[derive(Debug)]
pub struct ConsolePage {
    pub entries: Vec<ConsoleEntry>,
    pub dropped: u64,
    pub latest_seq: u64,
}

/// An answer to a network query.
#[derive(Debug)]
pub struct NetworkPage {
    pub entries: Vec<NetworkEntry>,
    pub dropped: u64,
    pub latest_seq: u64,
}

/// The size of the page, in pixels.
#[derive(Debug, Clone, Copy, PartialEq, Eq, Structural)]
pub struct PageViewport {
    pub width_px: u32,
    pub height_px: u32,
}

/// What the page says of itself.
#[derive(Debug)]
pub struct PageInfo {
    pub url: String,
    pub title: String,
    pub viewport: Option<PageViewport>,
    pub loading: bool,
}

/// What the messages of a row hold.
pub open spec fn console_records(v: Seq<ConsoleEntry>) -> Seq<ConsoleRecord> {
    v.map_values(|e: ConsoleEntry| e@)
}

/// What the events of a row hold.
pub open spec fn network_records(v: Seq<NetworkEntry>) -> Seq<NetworkRecord> {
    v.map_values(|e: NetworkEntry| e@)
}

/// The bytes of an optional text.
pub open spec fn text_bytes(s: Option<Seq<char>>) -> nat {
    match s {
        Some(s) => encode_utf8(s).len(),
        None => 0,
    }
}

/// The bytes of the bodies of one event.
pub open spec fn body_bytes(e: NetworkRecord) -> nat {
    text_bytes(e.request_body) + text_bytes(e.response_body)
}

/// The bytes of the bodies of a row of events.
pub open spec fn total_body_bytes(s: Seq<NetworkRecord>) -> nat
    decreases s.len(),
{
    if s.len() == 0 {
        0
    } else {
        body_bytes(s[0]) + total_body_bytes(s.skip(1))
    }
}

/// A row of events is within the limits: no more than `cap`, and their bodies
/// within the budget, except that a single event may exceed it.
pub open spec fn within(s: Seq<NetworkRecord>, cap: nat, budget: nat) -> bool {
    s.len() <= cap && (total_body_bytes(s) <= budget || s.len() <= 1)
}

/// The newest events that are within the limits.
pub open spec fn pruned(s: Seq<NetworkRecord>, cap: nat, budget: nat) -> Seq<NetworkRecord>
    decreases s.len(),
{
    if s.len() == 0 || within(s, cap, budget) {
        s
    } else {
        pruned(s.skip(1), cap, budget)
    }
}

/// The newest `cap` elements.
pub open spec fn newest<A>(s: Seq<A>, cap: nat) -> Seq<A> {
    if s.len() <= cap {
        s
    } else {
        s.skip(s.len() - cap)
    }
}

/// The first `limit` elements.
pub open spec fn first<A>(s: Seq<A>, limit: nat) -> Seq<A> {
    if s.len() <= limit {
        s
    } else {
        s.take(limit as int)
    }
}

/// The last response of a request, as an index into the row.
pub open spec fn last_response(s: Seq<NetworkRecord>, request_id: Seq<char>) -> Option<int>
    decreases s.len(),
{
    if s.len() == 0 {
        None
    } else if s.last().request_id == request_id && s.last().kind == "response"@ {
        Some(s.len() - 1)
    } else {
        last_response(s.drop_last(), request_id)
    }
}

/// An event with its response body filled in.
pub open spec fn with_response_body(
    e: NetworkRecord,
    body: Seq<char>,
    base64: bool,
) -> NetworkRecord {
    NetworkRecord { response_body: Some(body), response_body_base64: Some(base64), ..e }
}

/// Pruning keeps an end of the row that is within the limits (or nothing), and
/// takes away no more than it must: no longer end is within the limits.
pub proof fn law_pruned(s: Seq<NetworkRecord>, cap: nat, budget: nat)
    ensures
        pruned(s, cap, budget).len() <= s.len(),
        pruned(s, cap, budget) == s.skip(s.len() - pruned(s, cap, budget).len()),
        within(pruned(s, cap, budget), cap, budget),
        forall|k: int|
            0 <= k < s.len() - pruned(s, cap, budget).len() ==> !within(
                #[trigger] s.skip(k),
                cap,
                budget,
            ),
    decreases s.len(),
{
    let p = pruned(s, cap, budget);
    assert(s.skip(0) =~= s);
    if s.len() == 0 || within(s, cap, budget) {
    } else {
        let t = s.skip(1);
        law_pruned(t, cap, budget);
        assert(t.skip(t.len() - p.len()) =~= s.skip(s.len() - p.len()));
        assert forall|k: int| 0 <= k < s.len() - p.len() implies !within(
            #[trigger] s.skip(k),
            cap,
            budget,
        ) by {
            if k > 0 {
                assert(s.skip(k) =~= t.skip(k - 1));
            }
        }
    }
}

/// With room for at least one event, the newest event is never pruned.
pub proof fn law_newest_survives(s: Seq<NetworkRecord>, cap: nat, budget: nat)
    requires
        s.len() > 0,
        cap >= 1,
    ensures
        pruned(s, cap, budget).len() > 0,
        pruned(s, cap, budget).last() == s.last(),
    decreases s.len(),
{
    if !within(s, cap, budget) {
        law_newest_survives(s.skip(1), cap, budget);
    }
}

/// The last response is a response of the request, and none follows it; there
/// is none exactly where no event is one.
pub proof fn law_last_response(s: Seq<NetworkRecord>, id: Seq<char>)
    ensures
        match last_response(s, id) {
            Some(i) => {
                &&& 0 <= i < s.len()
                &&& s[i].request_id == id && s[i].kind == "response"@
                &&& forall|k: int|
                    i < k < s.len() ==> !((#[trigger] s[k]).request_id == id && s[k].kind
                        == "response"@)
            },
            None => forall|k: int|
                0 <= k < s.len() ==> !((#[trigger] s[k]).request_id == id && s[k].kind
                    == "response"@),
        },
    decreases s.len(),
{
    if s.len() > 0 && !(s.last().request_id == id && s.last().kind == "response"@) {
        let t = s.drop_last();
        law_last_response(t, id);
        assert forall|k: int| 0 <= k < s.len() - 1 implies t[k] == #[trigger] s[k] by {}
    }
}

/// The body bytes of a row with one more event at its end.
pub proof fn lemma_total_push(s: Seq<NetworkRecord>, e: NetworkRecord)
    ensures
        total_body_bytes(s.push(e)) == total_body_bytes(s) + body_bytes(e),
    decreases s.len(),
{
    if s.len() == 0 {
        assert(s.push(e).skip(1) =~= Seq::<NetworkRecord>::empty());
        reveal_with_fuel(total_body_bytes, 2);
    } else {
        assert(s.push(e).skip(1) =~= s.skip(1).push(e));
        lemma_total_push(s.skip(1), e);
    }
}

/// The body bytes of a row with one event replaced.
proof fn lemma_total_update(s: Seq<NetworkRecord>, i: int, e: NetworkRecord)
    requires
        0 <= i < s.len(),
    ensures
        total_body_bytes(s.update(i, e)) == total_body_bytes(s) - body_bytes(s[i]) + body_bytes(e),
    decreases s.len(),
{
    let t = s.update(i, e);
    if i == 0 {
        assert(t.skip(1) =~= s.skip(1));
    } else {
        assert(t.skip(1) =~= s.skip(1).update(i - 1, e));
        lemma_total_update(s.skip(1), i - 1, e);
    }
}

/// One event is no heavier than the row it stands in.
proof fn lemma_total_member(s: Seq<NetworkRecord>, i: int)
    requires
        0 <= i < s.len(),
    ensures
        body_bytes(s[i]) <= total_body_bytes(s),
    decreases s.len(),
{
    if i > 0 {
        lemma_total_member(s.skip(1), i - 1);
    }
}

/// A row is in strictly increasing order of `key`.
pub open spec fn increasing<A>(s: Seq<A>, key: spec_fn(A) -> u64) -> bool {
    forall|i: int, j: int| 0 <= i < j < s.len() ==> key(#[trigger] s[i]) < key(#[trigger] s[j])
}

/// A filtered row keeps the order, and its elements come from the row.
proof fn lemma_filter_order<A>(s: Seq<A>, p: spec_fn(A) -> bool, key: spec_fn(A) -> u64)
    requires
        increasing(s, key),
    ensures
        increasing(s.filter(p), key),
        forall|i: int| 0 <= i < s.filter(p).len() ==> p(#[trigger] s.filter(p)[i]),
        s.len() > 0 ==> forall|i: int|
            0 <= i < s.filter(p).len() ==> key(#[trigger] s.filter(p)[i]) <= key(s.last()),
    decreases s.len(),
{
    reveal(Seq::filter);
    if s.len() > 0 {
        let t = s.drop_last();
        assert(increasing(t, key));
        lemma_filter_order(t, p, key);
        if t.len() > 0 {
            assert(key(s[t.len() - 1]) < key(s[t.len() as int]));
        }
    }
}

/// Filtering by more is filtering twice.
proof fn lemma_filter_twice<A>(
    s: Seq<A>,
    p: spec_fn(A) -> bool,
    q: spec_fn(A) -> bool,
    both: spec_fn(A) -> bool,
)
    requires
        forall|a: A| #[trigger] both(a) == (p(a) && q(a)),
    ensures
        s.filter(both) == s.filter(p).filter(q),
    decreases s.len(),
{
    reveal(Seq::filter);
    if s.len() > 0 {
        let t = s.drop_last();
        lemma_filter_twice(t, p, q, both);
        assert(both(s.last()) == (p(s.last()) && q(s.last())));
        if p(s.last()) {
            let f = t.filter(p);
            assert(s.filter(p).drop_last() =~= f);
        }
    }
}

/// In an ordered row, what comes behind an element is what has a greater key.
proof fn lemma_filter_behind<A>(s: Seq<A>, n: int, key: spec_fn(A) -> u64, q: spec_fn(A) -> bool)
    requires
        increasing(s, key),
        0 < n <= s.len(),
        forall|a: A| #[trigger] q(a) == (key(a) > key(s[n - 1])),
    ensures
        s.filter(q) == s.skip(n),
    decreases s.len(),
{
    reveal(Seq::filter);
    let t = s.drop_last();
    if n == s.len() {
        assert forall|i: int| 0 <= i < s.len() implies !q(#[trigger] s[i]) by {
            if i < n - 1 {
                assert(key(s[i]) < key(s[n - 1]));
            }
        }
        lemma_filter_none(s, q);
        assert(s.skip(n) =~= Seq::<A>::empty());
    } else {
        assert(increasing(t, key));
        assert(t[n - 1] == s[n - 1]);
        lemma_filter_behind(t, n, key, q);
        assert(key(s[n - 1]) < key(s[s.len() - 1]));
        assert(q(s.last()));
        assert(s.skip(n) =~= t.skip(n).push(s.last()));
    }
}

/// Where no element passes, nothing is left.
proof fn lemma_filter_none<A>(s: Seq<A>, q: spec_fn(A) -> bool)
    requires
        forall|i: int| 0 <= i < s.len() ==> !q(#[trigger] s[i]),
    ensures
        s.filter(q) == Seq::<A>::empty(),
    decreases s.len(),
{
    reveal(Seq::filter);
    if s.len() > 0 {
        let t = s.drop_last();
        assert forall|i: int| 0 <= i < t.len() implies !q(#[trigger] t[i]) by {
            assert(t[i] == s[i]);
        }
        lemma_filter_none(t, q);
        assert(!q(s[s.len() - 1]));
    } else {
        assert(s =~= Seq::<A>::empty());
    }
}

/// A full page, continued from the number of its last message, gives what one
/// longer page would have given: no message is seen twice and none is missed.
pub proof fn law_console_cursor(
    s: StoreView,
    since_seq: u64,
    level: Option<Seq<char>>,
    n: nat,
    m: nat,
)
    requires
        s.wf(),
        n > 0,
        s.console_query(since_seq, level, n).len() == n,
    ensures
        s.console_query(since_seq, level, n + m) == s.console_query(since_seq, level, n)
            + s.console_query(s.console_query(since_seq, level, n).last().seq, level, m),
{
    let key = |e: ConsoleRecord| e.seq;
    let p = |e: ConsoleRecord| e.seq > since_seq && (level matches Some(l) ==> e.level == l);
    let f = s.console.filter(p);
    let page = s.console_query(since_seq, level, n);
    let c = page.last().seq;
    let q = |e: ConsoleRecord| e.seq > c;
    let both = |e: ConsoleRecord| e.seq > c && (level matches Some(l) ==> e.level == l);
    assert(increasing(s.console, key));
    lemma_filter_order(s.console, p, key);
    assert(page =~= f.take(n as int));
    assert(page.last() == f[n - 1]);
    assert(p(f[n - 1]));
    lemma_filter_twice(s.console, p, q, both);
    lemma_filter_behind(f, n as int, key, q);
    assert(first(f, n + m) =~= page + first(f.skip(n as int), m));
}

/// The same for network events.
pub proof fn law_network_cursor(
    s: StoreView,
    since_seq: u64,
    status: Option<i64>,
    n: nat,
    m: nat,
)
    requires
        s.wf(),
        n > 0,
        s.network_query(since_seq, status, n).len() == n,
    ensures
        s.network_query(since_seq, status, n + m) == s.network_query(since_seq, status, n)
            + s.network_query(s.network_query(since_seq, status, n).last().seq, status, m),
{
    let key = |e: NetworkRecord| e.seq;
    let p = |e: NetworkRecord|
        e.seq > since_seq && (status matches Some(s) ==> e.status == Some(s));
    let f = s.network.filter(p);
    let page = s.network_query(since_seq, status, n);
    let c = page.last().seq;
    let q = |e: NetworkRecord| e.seq > c;
    let both = |e: NetworkRecord| e.seq > c && (status matches Some(s) ==> e.status == Some(s));
    assert(increasing(s.network, key));
    lemma_filter_order(s.network, p, key);
    assert(page =~= f.take(n as int));
    assert(page.last() == f[n - 1]);
    assert(p(f[n - 1]));
    lemma_filter_twice(s.network, p, q, both);
    lemma_filter_behind(f, n as int, key, q);
    assert(first(f, n + m) =~= page + first(f.skip(n as int), m));
}

/// Where only the last element passes, it alone is left.
proof fn lemma_filter_last<A>(s: Seq<A>, q: spec_fn(A) -> bool)
    requires
        s.len() > 0,
        q(s.last()),
        forall|i: int| 0 <= i < s.len() - 1 ==> !q(#[trigger] s[i]),
    ensures
        s.filter(q) == seq![s.last()],
{
    let t = s.drop_last();
    assert forall|i: int| 0 <= i < t.len() implies !q(#[trigger] t[i]) by {
        assert(t[i] == s[i]);
    }
    lemma_filter_none(t, q);
    reveal(Seq::filter);
    assert(s.filter(q) =~= seq![s.last()]);
}

/// Where every element passes, the row stays as it is.
proof fn lemma_filter_all<A>(s: Seq<A>, q: spec_fn(A) -> bool)
    requires
        forall|i: int| 0 <= i < s.len() ==> q(#[trigger] s[i]),
    ensures
        s.filter(q) == s,
    decreases s.len(),
{
    reveal(Seq::filter);
    if s.len() > 0 {
        let t = s.drop_last();
        assert forall|i: int| 0 <= i < t.len() implies q(#[trigger] t[i]) by {
            assert(t[i] == s[i]);
        }
        lemma_filter_all(t, q);
        assert(q(s[s.len() - 1]));
        assert(t.push(s.last()) =~= s);
    } else {
        assert(s.filter(q) =~= s);
    }
}

/// A query from zero, for any level, answers with every message that is held, as
/// far as the limit allows.
proof fn lemma_all_messages(s: StoreView, level: Option<Seq<char>>, limit: nat)
    requires
        s.wf(),
        level is None,
    ensures
        s.console_query(0, level, limit) == first(s.console, limit),
{
    lemma_filter_all(
        s.console,
        |e: ConsoleRecord| e.seq > 0 && (level matches Some(l) ==> e.level == l),
    );
}

/// A query from zero, for any status, answers with every event that is held, as
/// far as the limit allows.
proof fn lemma_all_events(s: StoreView, status: Option<i64>, limit: nat)
    requires
        s.wf(),
        status is None,
    ensures
        s.network_query(0, status, limit) == first(s.network, limit),
{
    lemma_filter_all(
        s.network,
        |e: NetworkRecord| e.seq > 0 && (status matches Some(v) ==> e.status == Some(v)),
    );
}

/// A query from zero with the greatest limit answers with all that is held, in
/// the order of the numbers; any other query answers with the beginning of what
/// it asks for of that.
pub proof fn law_console_query_of_all(
    s: StoreView,
    since_seq: u64,
    level: Option<Seq<char>>,
    limit: nat,
)
    requires
        s.wf(),
    ensures
        ({
            let all = s.console_query(0, None, usize::MAX as nat);
            &&& all == s.console
            &&& increasing(all, |e: ConsoleRecord| e.seq)
            &&& s.console_query(since_seq, level, limit) == first(
                all.filter(
                    |e: ConsoleRecord|
                        e.seq > since_seq && (level matches Some(l) ==> e.level == l),
                ),
                limit,
            )
            &&& increasing(s.console_query(since_seq, level, limit), |e: ConsoleRecord| e.seq)
        }),
{
    lemma_all_messages(s, None, usize::MAX as nat);
    let key = |e: ConsoleRecord| e.seq;
    assert(increasing(s.console, key));
    lemma_filter_order(
        s.console,
        |e: ConsoleRecord| e.seq > since_seq && (level matches Some(l) ==> e.level == l),
        key,
    );
}

/// The same for network events.
pub proof fn law_network_query_of_all(
    s: StoreView,
    since_seq: u64,
    status: Option<i64>,
    limit: nat,
)
    requires
        s.wf(),
    ensures
        ({
            let all = s.network_query(0, None, usize::MAX as nat);
            &&& all == s.network
            &&& increasing(all, |e: NetworkRecord| e.seq)
            &&& s.network_query(since_seq, status, limit) == first(
                all.filter(
                    |e: NetworkRecord|
                        e.seq > since_seq && (status matches Some(v) ==> e.status == Some(v)),
                ),
                limit,
            )
            &&& increasing(s.network_query(since_seq, status, limit), |e: NetworkRecord| e.seq)
        }),
{
    lemma_all_events(s, None, usize::MAX as nat);
    let key = |e: NetworkRecord| e.seq;
    assert(increasing(s.network, key));
    lemma_filter_order(
        s.network,
        |e: NetworkRecord| e.seq > since_seq && (status matches Some(v) ==> e.status == Some(v)),
        key,
    );
}

/// Something that happens to a store.
pub enum Happening {
    Console {
        level: Seq<char>,
        text: Seq<char>,
        url: Option<Seq<char>>,
        line: Option<u32>,
        ts_ms: u64,
    },
    Network { event: NetworkRecord, ts_ms: u64 },
    Body { request_id: Seq<char>, body: Seq<char>, base64: bool },
}

/// The store after a history.
pub open spec fn after_history(s: StoreView, h: Seq<Happening>) -> StoreView
    decreases h.len(),
{
    if h.len() == 0 {
        s
    } else {
        let t = after_history(s, h.drop_last());
        match h.last() {
            Happening::Console { level, text, url, line, ts_ms } => t.console_pushed(
                level,
                text,
                url,
                line,
                ts_ms,
            ),
            Happening::Network { event, ts_ms } => t.network_pushed(event, ts_ms),
            Happening::Body { request_id, body, base64 } => t.body_attached(
                request_id,
                body,
                base64,
            ),
        }
    }
}

/// How many numbers a history gives out.
pub open spec fn numbers_given(h: Seq<Happening>) -> nat
    decreases h.len(),
{
    if h.len() == 0 {
        0
    } else {
        numbers_given(h.drop_last()) + if h.last() is Body {
            0nat
        } else {
            1nat
        }
    }
}

/// All the messages of a history, under their numbers.
pub open spec fn messages(h: Seq<Happening>) -> Seq<ConsoleRecord>
    decreases h.len(),
{
    if h.len() == 0 {
        Seq::empty()
    } else {
        let before = messages(h.drop_last());
        match h.last() {
            Happening::Console { level, text, url, line, ts_ms } => before.push(
                ConsoleRecord { seq: numbers_given(h) as u64, ts_ms, level, text, url, line },
            ),
            _ => before,
        }
    }
}

/// Whatever happens to a sound store, it stays sound.
proof fn lemma_history_wf(s: StoreView, h: Seq<Happening>)
    requires
        s.wf(),
        s.seq + numbers_given(h) <= u64::MAX,
    ensures
        after_history(s, h).wf(),
        after_history(s, h).seq == s.seq + numbers_given(h),
    decreases h.len(),
{
    if h.len() > 0 {
        let g = h.drop_last();
        lemma_history_wf(s, g);
        let t = after_history(s, g);
        match h.last() {
            Happening::Console { level, text, url, line, ts_ms } => {
                lemma_pushed_wf(t, level, text, url, line, ts_ms);
            },
            Happening::Network { event, ts_ms } => {
                lemma_event_wf(t, event, ts_ms);
            },
            Happening::Body { request_id, body, base64 } => {
                law_last_response(t.network, request_id);
                if let Some(i) = last_response(t.network, request_id) {
                    lemma_attached_order(
                        t,
                        i,
                        with_response_body(t.network[i], body, base64),
                    );
                }
            },
        }
    }
}

/// A message leaves a store sound.
proof fn lemma_pushed_wf(
    s: StoreView,
    level: Seq<char>,
    text: Seq<char>,
    url: Option<Seq<char>>,
    line: Option<u32>,
    ts_ms: u64,
)
    requires
        s.wf(),
        s.seq < u64::MAX,
    ensures
        s.console_pushed(level, text, url, line, ts_ms).wf(),
        s.console_pushed(level, text, url, line, ts_ms).network == s.network,
{
    let t = s.console_pushed(level, text, url, line, ts_ms);
    assert forall|i: int| 0 <= i < t.console.len() - 1 implies 1 <= (#[trigger] t.console[i]).seq
        <= s.seq by {
        let k = i + s.console.len() + 1 - t.console.len();
        assert(t.console[i] == s.console[k]);
    }
    assert forall|i: int, j: int| 0 <= i < j < t.console.len() implies (#[trigger] t.console[i]).seq
        < (#[trigger] t.console[j]).seq by {
        let k = i + s.console.len() + 1 - t.console.len();
        assert(t.console[i] == s.console[k]);
        if j < t.console.len() - 1 {
            assert(t.console[j] == s.console[k + j - i]);
        }
    }
}

/// An event leaves a store sound.
proof fn lemma_event_wf(s: StoreView, e: NetworkRecord, ts_ms: u64)
    requires
        s.wf(),
        s.seq < u64::MAX,
    ensures
        s.network_pushed(e, ts_ms).wf(),
        s.network_pushed(e, ts_ms).console == s.console,
        forall|i: int|
            0 <= i < s.network_pushed(e, ts_ms).network.len() - 1
                ==> (#[trigger] s.network_pushed(e, ts_ms).network[i]).seq <= s.seq,
{
    let t = s.network_pushed(e, ts_ms);
    let all = s.network.push(NetworkRecord { seq: t.seq, ts_ms, ..e });
    law_pruned(all, s.cap, s.body_budget);
    assert forall|i: int| 0 <= i < t.network.len() - 1 implies 1 <= (#[trigger] t.network[i]).seq
        <= s.seq by {
        let k = i + all.len() - t.network.len();
        assert(t.network[i] == all[k]);
        assert(t.network[i] == s.network[k]);
    }
    assert forall|i: int, j: int| 0 <= i < j < t.network.len() implies (#[trigger] t.network[i]).seq
        < (#[trigger] t.network[j]).seq by {
        let k = i + all.len() - t.network.len();
        assert(t.network[i] == all[k]);
        assert(t.network[i] == s.network[k]);
        if j < t.network.len() - 1 {
            assert(t.network[j] == all[k + j - i]);
            assert(t.network[j] == s.network[k + j - i]);
        }
    }
}

/// Whatever happens to a fresh store, a query for everything answers with the
/// newest messages, as many as there is room for, as they were pushed and in that
/// order; the others are counted as dropped. A message leaves the events alone.
pub proof fn law_console_history(s: StoreView, h: Seq<Happening>)
    requires
        s.wf(),
        s.seq == 0,
        numbers_given(h) <= u64::MAX,
    ensures
        ({
            let t = after_history(s, h);
            &&& t.wf()
            &&& t.console_query(0, None, usize::MAX as nat) == newest(messages(h), s.cap)
            &&& t.console_dropped == messages(h).len() - newest(messages(h), s.cap).len()
            &&& h.len() > 0 && h.last() is Console ==> t.network == after_history(
                s,
                h.drop_last(),
            ).network
        }),
{
    assert(s.console =~= Seq::<ConsoleRecord>::empty());
    lemma_history_wf(s, h);
    law_console_holds_newest(s, h);
    lemma_all_messages(after_history(s, h), None, usize::MAX as nat);
}

/// Whatever happens to an empty store, it then holds the newest messages, as many
/// as it has room for, as they were pushed, and has counted the others.
pub proof fn law_console_holds_newest(s: StoreView, h: Seq<Happening>)
    requires
        s.seq == 0,
        s.console == Seq::<ConsoleRecord>::empty(),
        s.console_dropped == 0,
        numbers_given(h) <= u64::MAX,
    ensures
        ({
            let t = after_history(s, h);
            &&& t.cap == s.cap
            &&& t.seq == numbers_given(h)
            &&& t.console == newest(messages(h), s.cap)
            &&& t.console_dropped == messages(h).len() - t.console.len()
            &&& messages(h).len() <= numbers_given(h)
        }),
    decreases h.len(),
{
    if h.len() > 0 {
        let g = h.drop_last();
        law_console_holds_newest(s, g);
        let t = after_history(s, g);
        match h.last() {
            Happening::Console { level, text, url, line, ts_ms } => {
                let e = messages(h).last();
                assert(messages(h) == messages(g).push(e));
                assert(newest(newest(messages(g), s.cap).push(e), s.cap) =~= newest(
                    messages(h),
                    s.cap,
                ));
            },
            _ => {},
        }
    } else {
        assert(newest(messages(h), s.cap) =~= Seq::<ConsoleRecord>::empty());
    }
}

/// A query answers with the last message alone, where it asks for that message
/// and all others have lower numbers.
proof fn lemma_last_message(s: StoreView, since_seq: u64, level: Option<Seq<char>>, limit: nat)
    requires
        s.console.len() > 0,
        limit >= 1,
        s.console.last().seq > since_seq,
        level matches Some(l) ==> s.console.last().level == l,
        forall|i: int|
            0 <= i < s.console.len() - 1 ==> (#[trigger] s.console[i]).seq <= since_seq,
    ensures
        s.console_query(since_seq, level, limit) == seq![s.console.last()],
{
    lemma_filter_last(
        s.console,
        |e: ConsoleRecord| e.seq > since_seq && (level matches Some(l) ==> e.level == l),
    );
}

/// A query from the latest number answers with no message.
proof fn lemma_no_message(s: StoreView, level: Option<Seq<char>>, limit: nat)
    requires
        s.wf(),
    ensures
        s.console_query(s.seq, level, limit) == Seq::<ConsoleRecord>::empty(),
{
    lemma_filter_none(
        s.console,
        |e: ConsoleRecord| e.seq > s.seq && (level matches Some(l) ==> e.level == l),
    );
}

/// A message that was just pushed into a store with room for one is held, under
/// the store's latest number. A query from the number before it answers with that
/// message alone, and one from its own number with nothing.
pub proof fn law_pushed_is_held(
    s: StoreView,
    level: Seq<char>,
    text: Seq<char>,
    url: Option<Seq<char>>,
    line: Option<u32>,
    ts_ms: u64,
    limit: nat,
)
    requires
        s.wf(),
        s.seq < u64::MAX,
        s.cap >= 1,
        limit >= 1,
    ensures
        ({
            let t = s.console_pushed(level, text, url, line, ts_ms);
            let e = ConsoleRecord { seq: t.seq, ts_ms, level, text, url, line };
            &&& t.wf()
            &&& t.seq == s.seq + 1
            &&& t.console.len() > 0
            &&& t.console.last() == e
            &&& t.console_query(s.seq, None, limit) == seq![e]
            &&& t.console_query(s.seq, Some(level), limit) == seq![e]
            &&& t.console_query(t.seq, None, limit) == Seq::<ConsoleRecord>::empty()
        }),
{
    let t = s.console_pushed(level, text, url, line, ts_ms);
    assert forall|i: int| 0 <= i < t.console.len() - 1 implies (#[trigger] t.console[i]).seq
        <= s.seq by {
        let k = i + s.console.len() + 1 - t.console.len();
        assert(t.console[i] == s.console[k]);
    }
    lemma_pushed_wf(s, level, text, url, line, ts_ms);
    lemma_last_message(t, s.seq, None, limit);
    lemma_last_message(t, s.seq, Some(level), limit);
    lemma_no_message(t, None, limit);
}

/// A query answers with the last event alone, where it asks for that event and
/// all others have lower numbers.
proof fn lemma_last_event(s: StoreView, since_seq: u64, status: Option<i64>, limit: nat)
    requires
        s.network.len() > 0,
        limit >= 1,
        s.network.last().seq > since_seq,
        status matches Some(v) ==> s.network.last().status == Some(v),
        forall|i: int|
            0 <= i < s.network.len() - 1 ==> (#[trigger] s.network[i]).seq <= since_seq,
    ensures
        s.network_query(since_seq, status, limit) == seq![s.network.last()],
{
    lemma_filter_last(
        s.network,
        |e: NetworkRecord| e.seq > since_seq && (status matches Some(v) ==> e.status == Some(v)),
    );
}

/// A query from the latest number answers with no event.
proof fn lemma_no_event(s: StoreView, status: Option<i64>, limit: nat)
    requires
        s.wf(),
    ensures
        s.network_query(s.seq, status, limit) == Seq::<NetworkRecord>::empty(),
{
    lemma_filter_none(
        s.network,
        |e: NetworkRecord| e.seq > s.seq && (status matches Some(v) ==> e.status == Some(v)),
    );
}

/// The same for a network event: it is held even where its bodies exceed the
/// budget.
pub proof fn law_event_is_held(s: StoreView, e: NetworkRecord, ts_ms: u64, limit: nat)
    requires
        s.wf(),
        s.seq < u64::MAX,
        s.cap >= 1,
        limit >= 1,
    ensures
        ({
            let t = s.network_pushed(e, ts_ms);
            let held = NetworkRecord { seq: t.seq, ts_ms, ..e };
            &&& t.wf()
            &&& t.seq == s.seq + 1
            &&& t.network.len() > 0
            &&& t.network.last() == held
            &&& t.network_query(s.seq, None, limit) == seq![held]
            &&& t.network_query(t.seq, None, limit) == Seq::<NetworkRecord>::empty()
        }),
{
    let t = s.network_pushed(e, ts_ms);
    let held = NetworkRecord { seq: t.seq, ts_ms, ..e };
    let all = s.network.push(held);
    law_newest_survives(all, s.cap, s.body_budget);
    lemma_event_wf(s, e, ts_ms);
    lemma_last_event(t, s.seq, None, limit);
    lemma_no_event(t, None, limit);
}

/// A response body that was just attached is read back with the response, as
/// long as the response is still held.
pub proof fn law_attached_is_read_back(
    s: StoreView,
    request_id: Seq<char>,
    body: Seq<char>,
    base64: bool,
    k: int,
)
    requires
        s.wf(),
        last_response(s.network, request_id) is Some,
        0 <= k < s.body_attached(request_id, body, base64).network.len(),
        s.body_attached(request_id, body, base64).network[k].seq == s.network[last_response(
            s.network,
            request_id,
        )->0].seq,
    ensures
        s.body_attached(request_id, body, base64).network[k].response_body == Some(body),
        s.body_attached(request_id, body, base64).network[k].response_body_base64 == Some(base64),
{
    law_last_response(s.network, request_id);
    let i = last_response(s.network, request_id)->0;
    let all = s.network.update(i, with_response_body(s.network[i], body, base64));
    law_pruned(all, s.cap, s.body_budget);
    let kept = pruned(all, s.cap, s.body_budget);
    let j = k + all.len() - kept.len();
    assert(kept[k] == all[j]);
    assert(all[j].seq == s.network[j].seq);
    if j < i {
        assert(s.network[j].seq < s.network[i].seq);
    } else if j > i {
        assert(s.network[i].seq < s.network[j].seq);
    }
}

/// The two buffers and what has left them.
struct Buffers {
    console: VecDeque<ConsoleEntry>,
    network: VecDeque<NetworkEntry>,
    console_dropped: u64,
    network_dropped: u64,
    network_body_bytes: u128,
}

impl Buffers {
    spec fn records(self) -> Seq<NetworkRecord> {
        network_records(self.network@)
    }

    /// The byte count is that of the events held, whose bodies are strings.
    spec fn counted(self) -> bool {
        &&& self.network_body_bytes == total_body_bytes(self.records())
        &&& forall|i: int|
            0 <= i < self.records().len() ==> body_bytes(#[trigger] self.records()[i]) <= 2
                * usize::MAX
    }
}

/// What a store holds.
pub struct StoreView {
    pub cap: nat,
    pub body_budget: nat,
    pub seq: u64,
    pub console: Seq<ConsoleRecord>,
    pub network: Seq<NetworkRecord>,
    pub console_dropped: u64,
    pub network_dropped: u64,
}

impl StoreView {
    /// Each entry's number was given, from one on, later entries have higher
    /// numbers, the buffers are within their limits, which are sizes, and every
    /// number given is accounted for: held or counted as dropped.
    pub open spec fn wf(self) -> bool {
        &&& self.cap <= usize::MAX
        &&& self.body_budget <= usize::MAX
        &&& self.console.len() <= self.cap
        &&& within(self.network, self.cap, self.body_budget)
        &&& self.console.len() + self.console_dropped + self.network.len() + self.network_dropped
            == self.seq
        &&& forall|i: int| 0 <= i < self.console.len() ==> 1 <= (#[trigger] self.console[i]).seq <= self.seq
        &&& forall|i: int| 0 <= i < self.network.len() ==> 1 <= (#[trigger] self.network[i]).seq <= self.seq
        &&& forall|i: int, j: int|
            0 <= i < j < self.console.len() ==> (#[trigger] self.console[i]).seq
                < (#[trigger] self.console[j]).seq
        &&& forall|i: int, j: int|
            0 <= i < j < self.network.len() ==> (#[trigger] self.network[i]).seq
                < (#[trigger] self.network[j]).seq
    }

    /// The store with one more console message.
    pub open spec fn console_pushed(
        self,
        level: Seq<char>,
        text: Seq<char>,
        url: Option<Seq<char>>,
        line: Option<u32>,
        ts_ms: u64,
    ) -> StoreView {
        let seq = (self.seq + 1) as u64;
        let all = self.console.push(ConsoleRecord { seq, ts_ms, level, text, url, line });
        let kept = newest(all, self.cap);
        StoreView {
            seq,
            console: kept,
            console_dropped: (self.console_dropped + all.len() - kept.len()) as u64,
            ..self
        }
    }

    /// The store with its network buffer replaced, then pruned.
    pub open spec fn network_set(self, seq: u64, all: Seq<NetworkRecord>) -> StoreView {
        let kept = pruned(all, self.cap, self.body_budget);
        StoreView {
            seq,
            network: kept,
            network_dropped: (self.network_dropped + all.len() - kept.len()) as u64,
            ..self
        }
    }

    /// The store with one more network event.
    pub open spec fn network_pushed(self, e: NetworkRecord, ts_ms: u64) -> StoreView {
        let seq = (self.seq + 1) as u64;
        self.network_set(seq, self.network.push(NetworkRecord { seq, ts_ms, ..e }))
    }

    /// The store after a response body came in.
    pub open spec fn body_attached(
        self,
        request_id: Seq<char>,
        body: Seq<char>,
        base64: bool,
    ) -> StoreView {
        match last_response(self.network, request_id) {
            Some(i) => self.network_set(
                self.seq,
                self.network.update(i, with_response_body(self.network[i], body, base64)),
            ),
            None => self,
        }
    }

    /// The console messages that a query asks for.
    pub open spec fn console_query(
        self,
        since_seq: u64,
        level: Option<Seq<char>>,
        limit: nat,
    ) -> Seq<ConsoleRecord> {
        first(
            self.console.filter(
                |e: ConsoleRecord|
                    e.seq > since_seq && (level matches Some(l) ==> e.level == l),
            ),
            limit,
        )
    }

    /// The network events that a query asks for.
    pub open spec fn network_query(
        self,
        since_seq: u64,
        status: Option<i64>,
        limit: nat,
    ) -> Seq<NetworkRecord> {
        first(
            self.network.filter(
                |e: NetworkRecord|
                    e.seq > since_seq && (status matches Some(s) ==> e.status == Some(s)),
            ),
            limit,
        )
    }
}

/// The console and network buffers. Entries are numbered in the order in which
/// they come, across both buffers; a full buffer drops its oldest entries.
pub struct ObservabilityStore {
    cap: usize,
    network_body_budget_bytes: usize,
    seq: u64,
    inner: Buffers,
}

impl View for ObservabilityStore {
    type V = StoreView;

    closed spec fn view(&self) -> StoreView {
        StoreView {
            cap: self.cap as nat,
            body_budget: self.network_body_budget_bytes as nat,
            seq: self.seq,
            console: console_records(self.inner.console@),
            network: network_records(self.inner.network@),
            console_dropped: self.inner.console_dropped,
            network_dropped: self.inner.network_dropped,
        }
    }
}

impl ObservabilityStore {
    /// The store keeps what it promises and its byte count is right.
    pub closed spec fn wf(self) -> bool {
        self@.wf() && self.inner.counted()
    }

    /// What a well-formed store holds is within its limits, in the order of its
    /// numbers, and accounts for every number ever given: it is held or counted
    /// as dropped.
    pub proof fn law_accounted(self)
        requires
            self.wf(),
        ensures
            self@.wf(),
    {
    }

    /// The last number given to an entry.
    pub fn latest_seq(&self) -> (r: u64)
        ensures
            r == self@.seq,
    {
        self.seq
    }

    /// An empty store that keeps `cap` entries in each buffer.
    pub fn new(cap: usize) -> (r: Self)
        ensures
            r.wf(),
            r@ == (StoreView {
                cap: cap as nat,
                body_budget: NETWORK_BODY_BUDGET_BYTES as nat,
                seq: 0,
                console: Seq::empty(),
                network: Seq::empty(),
                console_dropped: 0,
                network_dropped: 0,
            }),
    {
        ObservabilityStore::with_body_budget(cap, NETWORK_BODY_BUDGET_BYTES)
    }

    /// An empty store with a body budget of its own.
    pub fn with_body_budget(cap: usize, network_body_budget_bytes: usize) -> (r: Self)
        ensures
            r.wf(),
            r@ == (StoreView {
                cap: cap as nat,
                body_budget: network_body_budget_bytes as nat,
                seq: 0,
                console: Seq::empty(),
                network: Seq::empty(),
                console_dropped: 0,
                network_dropped: 0,
            }),
    {
        let r = ObservabilityStore {
            cap,
            network_body_budget_bytes,
            seq: 0,
            inner: Buffers {
                console: VecDeque::new(),
                network: VecDeque::new(),
                console_dropped: 0,
                network_dropped: 0,
                network_body_bytes: 0,
            },
        };
        assert(r@.console =~= Seq::empty());
        assert(r@.network =~= Seq::empty());
        r
    }

    /// The number for the next entry.
    fn next_seq(&mut self) -> (r: u64)
        requires
            old(self).seq < u64::MAX,
        ensures
            r == old(self).seq + 1,
            *final(self) == (ObservabilityStore { seq: r, ..*old(self) }),
    {
        self.seq = self.seq + 1;
        self.seq
    }

    /// Appends a console message under the next number, and drops the oldest
    /// messages where the buffer holds more than its capacity.
    pub fn push_console(
        &mut self,
        level: String,
        text: String,
        url: Option<String>,
        line: Option<u32>,
        ts_ms: u64,
    )
        requires
            old(self).wf(),
            old(self)@.seq < u64::MAX,
        ensures
            final(self).wf(),
            final(self)@ == old(self)@.console_pushed(
                level@,
                text@,
                text::opt_view(url),
                line,
                ts_ms,
            ),
    {
        let ghost before = self@;
        let seq: u64 = self.next_seq();
        let entry: ConsoleEntry = ConsoleEntry { seq, ts_ms, level, text, url, line };
        let ghost all = before.console.push(entry@);
        self.inner.console.push_back(entry);
        assert(console_records(self.inner.console@) =~= all);
        assert(all.skip(0) =~= all);
        while self.inner.console.len() > self.cap
            invariant
                self.inner.console@.len() <= all.len(),
                console_records(self.inner.console@) == all.skip(
                    all.len() - self.inner.console@.len(),
                ),
                self.inner.console@.len() >= newest(all, self.cap as nat).len(),
                self.cap == before.cap,
                self.seq == seq,
                self.network_body_budget_bytes == before.body_budget,
                network_records(self.inner.network@) == before.network,
                self.inner.network_dropped == before.network_dropped,
                self.inner.counted(),
                self.inner.console_dropped == before.console_dropped + all.len()
                    - self.inner.console@.len(),
                before.wf(),
                all.len() == before.console.len() + 1,
                seq == before.seq + 1,
            decreases self.inner.console@.len(),
        {
            let ghost held = console_records(self.inner.console@);
            let _oldest = self.inner.console.pop_front();
            proof {
                assert(console_records(self.inner.console@) =~= held.skip(1));
                assert(held.skip(1) =~= all.skip(all.len() - self.inner.console@.len()));
            }
            self.inner.console_dropped = self.inner.console_dropped + 1;
        }
        proof {
            assert(self@.console =~= newest(all, self.cap as nat));
            assert forall|i: int| 0 <= i < all.len() implies (#[trigger] all[i]).seq <= seq by {
                if i < before.console.len() {
                    assert(all[i] == before.console[i]);
                }
            }
            assert forall|i: int, j: int| 0 <= i < j < all.len() implies (#[trigger] all[i]).seq < (
            #[trigger] all[j]).seq by {
                assert(all[i] == before.console[i]);
                if j < before.console.len() {
                    assert(all[j] == before.console[j]);
                }
            }
        }
    }

    /// Appends a network event under the next number, and drops the oldest
    /// events where the buffer is over its limits.
    pub fn push_network(&mut self, e: NetworkEntry, ts_ms: u64)
        requires
            old(self).wf(),
            old(self)@.seq < u64::MAX,
        ensures
            final(self).wf(),
            final(self)@ == old(self)@.network_pushed(e@, ts_ms),
    {
        let ghost before = self@;
        let mut e: NetworkEntry = e;
        let seq: u64 = self.next_seq();
        e.seq = seq;
        e.ts_ms = ts_ms;
        let ghost all = before.network.push(e@);
        proof {
            lemma_total_push(before.network, e@);
            lemma_total_bound(self.inner, before.cap, self.network_body_budget_bytes);
        }
        self.inner.network_body_bytes = self.inner.network_body_bytes + network_body_bytes(&e);
        self.inner.network.push_back(e);
        assert(self.inner.records() =~= all);
        prune_network(&mut self.inner, self.cap, self.network_body_budget_bytes);
        proof {
            law_pruned(all, before.cap, before.body_budget);
            assert forall|i: int| 0 <= i < all.len() implies (#[trigger] all[i]).seq <= seq by {
                if i < before.network.len() {
                    assert(all[i] == before.network[i]);
                }
            }
            assert forall|i: int, j: int| 0 <= i < j < all.len() implies (#[trigger] all[i]).seq < (
            #[trigger] all[j]).seq by {
                assert(all[i] == before.network[i]);
                if j < before.network.len() {
                    assert(all[j] == before.network[j]);
                }
            }
        }
    }

    /// Fills in the body of the last response of a request, if there is one, and
    /// drops the oldest events where the buffer is over its limits then.
    pub fn attach_response_body(
        &mut self,
        request_id: &str,
        body: String,
        base64_encoded: bool,
    ) -> (r: bool)
        requires
            old(self).wf(),
        ensures
            final(self).wf(),
            r == (last_response(old(self)@.network, request_id@) is Some),
            final(self)@ == old(self)@.body_attached(request_id@, body@, base64_encoded),
    {
        let ghost before = self@;
        let ghost content = body@;
        let at: usize = match self.find_response(request_id) {
            Some(i) => i,
            None => return false,
        };
        proof {
            law_last_response(before.network, request_id@);
            lemma_total_bound(self.inner, before.cap, self.network_body_budget_bytes);
            lemma_total_member(before.network, at as int);
        }
        let ghost held = self.inner.records();
        let ghost filled = with_response_body(held[at as int], content, base64_encoded);
        let ghost all = held.update(at as int, filled);
        let mut e: NetworkEntry = match self.inner.network.remove(at) {
            Some(e) => e,
            None => return false,
        };
        let old_bytes: u128 = network_body_bytes(&e);
        self.inner.network_body_bytes = self.inner.network_body_bytes - old_bytes;
        e.response_body = Some(body);
        e.response_body_base64 = Some(base64_encoded);
        assert(e@ == filled);
        let new_bytes: u128 = network_body_bytes(&e);
        self.inner.network_body_bytes = self.inner.network_body_bytes + new_bytes;
        self.inner.network.insert(at, e);
        proof {
            lemma_total_update(held, at as int, filled);
            assert(self.inner.records() =~= all);
            assert forall|i: int| 0 <= i < all.len() implies body_bytes(#[trigger] all[i]) <= 2
                * usize::MAX by {
                if i != at {
                    assert(all[i] == held[i]);
                }
            }
        }
        prune_network(&mut self.inner, self.cap, self.network_body_budget_bytes);
        proof {
            lemma_attached_order(before, at as int, filled);
        }
        true
    }

    /// The index of the last response of a request.
    fn find_response(&self, request_id: &str) -> (r: Option<usize>)
        ensures
            match r {
                Some(i) => last_response(self@.network, request_id@) == Some(i as int),
                None => last_response(self@.network, request_id@) is None,
            },
    {
        let ghost all = self@.network;
        let mut idx: usize = self.inner.network.len();
        assert(all.take(idx as int) =~= all);
        while idx > 0
            invariant
                all == network_records(self.inner.network@),
                idx <= all.len(),
                last_response(all, request_id@) == last_response(
                    all.take(idx as int),
                    request_id@,
                ),
            decreases idx,
        {
            let e: &NetworkEntry = &self.inner.network[idx - 1];
            assert(all[idx - 1] == e@);
            assert(all.take(idx as int).last() == e@);
            assert(all.take(idx as int).drop_last() =~= all.take(idx - 1));
            if text::same_str(e.request_id.as_str(), request_id) && text::same_str(
                e.kind.as_str(),
                "response",
            ) {
                return Some(idx - 1);
            }
            idx -= 1;
        }
        None
    }

    /// The console messages with a number above `since_seq`, of the given level
    /// if one is given, the oldest `limit` of them.
    pub fn console_since(&self, since_seq: u64, level: Option<&str>, limit: usize) -> (r:
        ConsolePage)
        requires
            self.wf(),
        ensures
            console_records(r.entries@) == self@.console_query(
                since_seq,
                match level {
                    Some(l) => Some(l@),
                    None => None,
                },
                limit as nat,
            ),
            r.dropped == self@.console_dropped,
            r.latest_seq == self@.seq,
    {
        let ghost want = match level {
            Some(l) => Some(l@),
            None => None,
        };
        let ghost p = |e: ConsoleRecord|
            e.seq > since_seq && (want matches Some(l) ==> e.level == l);
        let ghost all = self@.console;
        let mut out: Vec<ConsoleEntry> = Vec::new();
        let n: usize = self.inner.console.len();
        let mut i: usize = 0;
        assert(all.take(0).filter(p) =~= Seq::<ConsoleRecord>::empty()) by {
            reveal(Seq::filter);
        }
        assert(console_records(out@) =~= first(all.take(0).filter(p), limit as nat));
        while i < n
            invariant
                i <= n,
                n == self.inner.console@.len(),
                all == console_records(self.inner.console@),
                want == (match level {
                    Some(l) => Some(l@),
                    None => None::<Seq<char>>,
                }),
                p == (|e: ConsoleRecord|
                    e.seq > since_seq && (want matches Some(l) ==> e.level == l)),
                console_records(out@) == first(all.take(i as int).filter(p), limit as nat),
            decreases n - i,
        {
            let e: &ConsoleEntry = &self.inner.console[i];
            let level_ok: bool = match level {
                Some(l) => text::same_str(e.level.as_str(), l),
                None => true,
            };
            let ghost had = all.take(i as int).filter(p);
            proof {
                assert(all[i as int] == e@);
                assert(all.take(i + 1).drop_last() =~= all.take(i as int));
                reveal(Seq::filter);
                assert(all.take(i + 1).filter(p) == if p(e@) {
                    had.push(e@)
                } else {
                    had
                });
            }
            if e.seq > since_seq && level_ok && out.len() < limit {
                let ghost sofar = console_records(out@);
                out.push(e.clone());
                assert(console_records(out@) =~= sofar.push(e@));
            }
            proof {
                if p(e@) && had.len() >= limit {
                    assert(first(had.push(e@), limit as nat) =~= first(had, limit as nat));
                }
            }
            i += 1;
        }
        assert(all.take(n as int) =~= all);
        ConsolePage { entries: out, dropped: self.inner.console_dropped, latest_seq: self.seq }
    }

    /// The network events with a number above `since_seq`, with the given status
    /// if one is given, the oldest `limit` of them.
    pub fn network_since(&self, since_seq: u64, status: Option<i64>, limit: usize) -> (r:
        NetworkPage)
        requires
            self.wf(),
        ensures
            network_records(r.entries@) == self@.network_query(since_seq, status, limit as nat),
            r.dropped == self@.network_dropped,
            r.latest_seq == self@.seq,
    {
        let ghost p = |e: NetworkRecord|
            e.seq > since_seq && (status matches Some(s) ==> e.status == Some(s));
        let ghost all = self@.network;
        let mut out: Vec<NetworkEntry> = Vec::new();
        let n: usize = self.inner.network.len();
        let mut i: usize = 0;
        assert(all.take(0).filter(p) =~= Seq::<NetworkRecord>::empty()) by {
            reveal(Seq::filter);
        }
        assert(network_records(out@) =~= first(all.take(0).filter(p), limit as nat));
        while i < n
            invariant
                i <= n,
                n == self.inner.network@.len(),
                all == network_records(self.inner.network@),
                p == (|e: NetworkRecord|
                    e.seq > since_seq && (status matches Some(s) ==> e.status == Some(s))),
                network_records(out@) == first(all.take(i as int).filter(p), limit as nat),
            decreases n - i,
        {
            let e: &NetworkEntry = &self.inner.network[i];
            let status_ok: bool = match (status, e.status) {
                (Some(s), Some(t)) => s == t,
                (Some(_), None) => false,
                (None, _) => true,
            };
            let ghost had = all.take(i as int).filter(p);
            proof {
                assert(all[i as int] == e@);
                assert(all.take(i + 1).drop_last() =~= all.take(i as int));
                reveal(Seq::filter);
                assert(all.take(i + 1).filter(p) == if p(e@) {
                    had.push(e@)
                } else {
                    had
                });
            }
            if e.seq > since_seq && status_ok && out.len() < limit {
                let ghost sofar = network_records(out@);
                out.push(e.clone());
                assert(network_records(out@) =~= sofar.push(e@));
            }
            proof {
                if p(e@) && had.len() >= limit {
                    assert(first(had.push(e@), limit as nat) =~= first(had, limit as nat));
                }
            }
            i += 1;
        }
        assert(all.take(n as int) =~= all);
        NetworkPage { entries: out, dropped: self.inner.network_dropped, latest_seq: self.seq }
    }
}

/// A response body changes no number and no order.
proof fn lemma_attached_order(before: StoreView, at: int, filled: NetworkRecord)
    requires
        before.wf(),
        0 <= at < before.network.len(),
        filled.seq == before.network[at].seq,
    ensures
        before.network_set(before.seq, before.network.update(at, filled)).wf(),
{
    let all = before.network.update(at, filled);
    law_pruned(all, before.cap, before.body_budget);
    assert forall|i: int| 0 <= i < all.len() implies (#[trigger] all[i]).seq
        == before.network[i].seq by {}
    assert forall|i: int, j: int| 0 <= i < j < all.len() implies (#[trigger] all[i]).seq < (
    #[trigger] all[j]).seq by {
        assert(before.network[i].seq < before.network[j].seq);
    }
}

/// The bodies of a buffer within its limits can be counted.
proof fn lemma_total_bound(g: Buffers, cap: nat, budget: usize)
    requires
        g.counted(),
        within(g.records(), cap, budget as nat),
    ensures
        g.network_body_bytes <= 2 * usize::MAX,
{
    let s = g.records();
    reveal_with_fuel(total_body_bytes, 2);
    if s.len() == 1 {
        assert(body_bytes(s[0]) <= 2 * usize::MAX);
        assert(s.skip(1).len() == 0);
    }
}

/// Drops the oldest events until the buffer is within its limits.
fn prune_network(g: &mut Buffers, cap: usize, body_budget_bytes: usize)
    requires
        old(g).counted(),
        old(g).network_dropped + old(g).network@.len() <= u64::MAX,
    ensures
        final(g).counted(),
        final(g).records() == pruned(old(g).records(), cap as nat, body_budget_bytes as nat),
        final(g).network_dropped == old(g).network_dropped + old(g).network@.len()
            - final(g).network@.len(),
        final(g).console == old(g).console,
        final(g).console_dropped == old(g).console_dropped,
{
    while g.network.len() > cap || network_over_budget(g, body_budget_bytes)
        invariant
            g.counted(),
            pruned(g.records(), cap as nat, body_budget_bytes as nat) == pruned(
                old(g).records(),
                cap as nat,
                body_budget_bytes as nat,
            ),
            g.network_dropped + g.network@.len() == old(g).network_dropped + old(g).network@.len(),
            old(g).network_dropped + old(g).network@.len() <= u64::MAX,
            g.console == old(g).console,
            g.console_dropped == old(g).console_dropped,
        decreases g.network@.len(),
    {
        let ghost held = g.records();
        let entry: NetworkEntry = match g.network.pop_front() {
            Some(e) => e,
            None => return,
        };
        assert(entry@ == held[0]);
        assert forall|i: int| 0 <= i < held.len() - 1 implies #[trigger] held.skip(1)[i] == held[i
            + 1] by {}
        assert(g.records() =~= held.skip(1));
        g.network_body_bytes = g.network_body_bytes - network_body_bytes(&entry);
        g.network_dropped = g.network_dropped + 1;
    }
}

/// Whether the bodies exceed the budget; a single event may.
fn network_over_budget(g: &Buffers, body_budget_bytes: usize) -> (r: bool)
    requires
        g.counted(),
    ensures
        r == (total_body_bytes(g.records()) > body_budget_bytes && g.network@.len() > 1),
{
    g.network_body_bytes > body_budget_bytes as u128 && g.network.len() > 1
}

/// The bytes of an optional text.
fn opt_bytes(s: &Option<String>) -> (r: u128)
    ensures
        r == text_bytes(text::opt_view(*s)),
        r <= usize::MAX,
{
    match s {
        Some(s) => s.as_str().as_bytes().len() as u128,
        None => 0,
    }
}

/// The bytes of the bodies of one event.
pub fn network_body_bytes(e: &NetworkEntry) -> (r: u128)
    ensures
        r == body_bytes(e@),
        r <= 2 * usize::MAX,
{
    opt_bytes(&e.request_body) + opt_bytes(&e.response_body)
}

/// Milliseconds since the epoch, in 64 bits, from what the clock gave; zero for
/// a clock before the epoch.
pub fn now_ms(since_epoch: Option<u128>) -> (r: u64)
    ensures
        match since_epoch {
            Some(ms) => r as int == ms as int % 0x1_0000_0000_0000_0000,
            None => r == 0,
        },
{
    match since_epoch {
        Some(ms) => (ms % 0x1_0000_0000_0000_0000) as u64,
        None => 0,
    }
}

} // verus!
