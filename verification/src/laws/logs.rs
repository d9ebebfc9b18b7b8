//! What the buffers keep of what the page logged and fetched.

use crate::mcp::server::{ConsoleQuery, NetworkQuery, WebcatMcp};
use crate::observability;
use crate::observability::{
    ConsolePage, NetworkPage, NetworkRecord, ObservabilityStore, StoreView,
};
use crate::text;
use vstd::prelude::*;
use vstd::utf8::*;

verus! {

/// The first elements of a row, as many as the limit allows.
pub proof fn law_first<A>(s: Seq<A>, limit: nat)
    ensures
        observability::first(s, limit).is_prefix_of(s),
        observability::first(s, limit).len() == (if s.len() <= limit {
            s.len()
        } else {
            limit
        }),
{
}

/// The newest elements of a row are its end, as long as there is room for.
pub proof fn law_newest<A>(s: Seq<A>, cap: nat, i: int)
    requires
        0 <= i < observability::newest(s, cap).len(),
    ensures
        observability::newest(s, cap).len() == (if s.len() <= cap {
            s.len()
        } else {
            cap
        }),
        observability::newest(s, cap)[i] == s[i + s.len() - observability::newest(s, cap).len()],
{
}

/// A body weighs as many bytes as its text has in UTF-8, and bodies weigh
/// together what they weigh apart.
pub proof fn law_bodies_weigh(a: Seq<NetworkRecord>, e: NetworkRecord)
    ensures
        observability::total_body_bytes(a.push(e)) == observability::total_body_bytes(a)
            + observability::body_bytes(e),
        observability::body_bytes(e) == (if e.request_body is Some {
            encode_utf8(e.request_body->0).len()
        } else {
            0
        }) + (if e.response_body is Some {
            encode_utf8(e.response_body->0).len()
        } else {
            0
        }),
        observability::total_body_bytes(Seq::empty()) == 0,
{
    observability::lemma_total_push(a, e);
}

/// A buffer is within its limits where it holds no more events than its capacity
/// and no more bytes than its budget; one event alone may be too heavy.
pub proof fn law_limits(s: Seq<NetworkRecord>, cap: nat, budget: nat)
    ensures
        s.len() > cap ==> !observability::within(s, cap, budget),
        s.len() <= cap && observability::total_body_bytes(s) <= budget ==> observability::within(
            s,
            cap,
            budget,
        ),
        s.len() >= 2 && observability::total_body_bytes(s) > budget ==> !observability::within(
            s,
            cap,
            budget,
        ),
        s.len() == 1 && cap >= 1 ==> observability::within(s, cap, budget),
{
}

/// A console message goes behind the others under the next number, and drops the
/// oldest one where there is no room, which is counted; the network's events are
/// none of its business.
pub proof fn law_message_effects(
    s: StoreView,
    level: Seq<char>,
    said: Seq<char>,
    url: Option<Seq<char>>,
    line: Option<u32>,
    ts_ms: u64,
)
    requires
        s.wf(),
        s.seq < u64::MAX,
    ensures
        ({
            let t = s.console_pushed(level, said, url, line, ts_ms);
            let all = s.console.push(
                observability::ConsoleRecord {
                    seq: (s.seq + 1) as u64,
                    ts_ms,
                    level,
                    text: said,
                    url,
                    line,
                },
            );
            let lost = if all.len() > s.cap {
                all.len() - s.cap
            } else {
                0
            };
            &&& t.seq == s.seq + 1
            &&& t.console == all.skip(lost)
            &&& t.console_dropped == s.console_dropped + lost
            &&& t.network == s.network
            &&& t.network_dropped == s.network_dropped
            &&& t.cap == s.cap
            &&& t.body_budget == s.body_budget
        }),
{
    let all = s.console.push(
        observability::ConsoleRecord {
            seq: (s.seq + 1) as u64,
            ts_ms,
            level,
            text: said,
            url,
            line,
        },
    );
    assert(all.skip(0) =~= all);
}

/// A network event goes behind the others under the next number; what has to go
/// is the oldest, is counted, and is no more than what it takes. The console's
/// messages are none of its business.
pub proof fn law_event_effects(s: StoreView, e: NetworkRecord, ts_ms: u64)
    requires
        s.wf(),
        s.seq < u64::MAX,
    ensures
        ({
            let t = s.network_pushed(e, ts_ms);
            let all = s.network.push(NetworkRecord { seq: (s.seq + 1) as u64, ts_ms, ..e });
            let lost = all.len() - t.network.len();
            &&& t.seq == s.seq + 1
            &&& 0 <= lost
            &&& t.network == all.skip(lost)
            &&& t.network_dropped == s.network_dropped + lost
            &&& t.network.len() <= s.cap
            &&& t.network.len() > 1 ==> observability::total_body_bytes(t.network) <= s.body_budget
            &&& forall|k: int|
                0 <= k < lost ==> (#[trigger] all.skip(k)).len() > s.cap || (all.skip(k).len() > 1
                    && observability::total_body_bytes(all.skip(k)) > s.body_budget)
            &&& t.console == s.console
            &&& t.console_dropped == s.console_dropped
            &&& t.cap == s.cap
            &&& t.body_budget == s.body_budget
        }),
{
    let all = s.network.push(NetworkRecord { seq: (s.seq + 1) as u64, ts_ms, ..e });
    observability::law_pruned(all, s.cap, s.body_budget);
}

/// A body that comes in belongs to the last response of its request: no other
/// event changes, and no number is given. Without such a response nothing
/// changes at all.
pub proof fn law_body_effects(
    s: StoreView,
    request_id: Seq<char>,
    body: Seq<char>,
    base64: bool,
    at: Option<int>,
)
    requires
        s.wf(),
        match at {
            Some(i) => {
                &&& 0 <= i < s.network.len()
                &&& s.network[i].request_id == request_id
                &&& s.network[i].kind == "response"@
                &&& forall|k: int|
                    i < k < s.network.len() ==> !((#[trigger] s.network[k]).request_id == request_id
                        && s.network[k].kind == "response"@)
            },
            None => forall|k: int|
                0 <= k < s.network.len() ==> !((#[trigger] s.network[k]).request_id == request_id
                    && s.network[k].kind == "response"@),
        },
    ensures
        ({
            let t = s.body_attached(request_id, body, base64);
            &&& at is None ==> t == s
            &&& at matches Some(i) ==> {
                let all = s.network.update(
                    i,
                    NetworkRecord {
                        response_body: Some(body),
                        response_body_base64: Some(base64),
                        ..s.network[i]
                    },
                );
                let lost = all.len() - t.network.len();
                &&& 0 <= lost
                &&& t.network == all.skip(lost)
                &&& t.network_dropped == s.network_dropped + lost
                &&& observability::total_body_bytes(all) <= s.body_budget ==> lost == 0
                &&& t == StoreView {
                    network: t.network,
                    network_dropped: t.network_dropped,
                    ..s
                }
            }
        }),
{
    observability::law_last_response(s.network, request_id);
    let found = observability::last_response(s.network, request_id);
    assert(found == at) by {
        match (found, at) {
            (Some(a), Some(b)) => {
                if a < b {
                    assert(s.network[b].kind == "response"@);
                } else if b < a {
                    assert(s.network[a].kind == "response"@);
                }
            },
            (Some(a), None) => {
                assert(s.network[a].kind == "response"@);
            },
            (None, Some(b)) => {
                assert(s.network[b].kind == "response"@);
            },
            (None, None) => {},
        }
    }
    if let Some(i) = at {
        let all = s.network.update(
            i,
            NetworkRecord {
                response_body: Some(body),
                response_body_base64: Some(base64),
                ..s.network[i]
            },
        );
        observability::law_pruned(all, s.cap, s.body_budget);
        assert(all.skip(0) =~= all);
        if observability::total_body_bytes(all) <= s.body_budget {
            assert(observability::within(all, s.cap, s.body_budget));
        }
    }
}

/// The budget for bodies is half a gibibyte, unless another is given; a store
/// begins empty.
pub proof fn law_empty_store(cap: usize, r: ObservabilityStore)
    requires
        call_ensures(ObservabilityStore::new, (cap,), r),
    ensures
        r@.cap == cap,
        r@.body_budget == 512 * 1024 * 1024,
        r@.seq == 0,
        r@.console.len() == 0,
        r@.network.len() == 0,
        r@.console_dropped == 0,
        r@.network_dropped == 0,
{
}

/// A store has the capacity and the budget that it was given, begins with nothing,
/// and tells the last number.
pub proof fn law_store_with_budget(
    cap: usize,
    budget: usize,
    r: ObservabilityStore,
    store: &ObservabilityStore,
    last: u64,
)
    requires
        call_ensures(ObservabilityStore::with_body_budget, (cap, budget), r),
        call_ensures(ObservabilityStore::latest_seq, (store,), last),
    ensures
        r@.cap == cap,
        r@.body_budget == budget,
        r@.seq == 0,
        r@.console.len() == 0,
        r@.network.len() == 0,
        last == store@.seq,
{
}

/// The time is counted from the epoch; before it, it is the epoch.
pub proof fn law_time(since_epoch: Option<u128>, r: u64)
    requires
        call_ensures(observability::now_ms, (since_epoch,), r),
    ensures
        since_epoch is None ==> r == 0,
        since_epoch matches Some(ms) ==> ms <= u64::MAX ==> r == ms,
{
}

/// An answer about messages says how many were ever dropped and which number was
/// the last.
pub proof fn law_console_answer(
    store: &ObservabilityStore,
    since: u64,
    level: Option<&str>,
    limit: usize,
    r: ConsolePage,
)
    requires
        store.wf(),
        call_ensures(ObservabilityStore::console_since, (store, since, level, limit), r),
    ensures
        observability::console_records(r.entries@) == store@.console_query(
            since,
            crate::app::str_view(level),
            limit as nat,
        ),
        r.dropped == store@.console_dropped,
        r.latest_seq == store@.seq,
{
}

/// The same for network events.
pub proof fn law_network_answer(
    store: &ObservabilityStore,
    since: u64,
    status: Option<i64>,
    limit: usize,
    r: NetworkPage,
)
    requires
        store.wf(),
        call_ensures(ObservabilityStore::network_since, (store, since, status, limit), r),
    ensures
        observability::network_records(r.entries@) == store@.network_query(
            since,
            status,
            limit as nat,
        ),
        r.dropped == store@.network_dropped,
        r.latest_seq == store@.seq,
{
}

/// An agent that asks for messages without saying more gets the first two hundred
/// of all of them; what it does say counts.
pub proof fn law_agent_reads_messages(
    mcp: &WebcatMcp,
    store: &ObservabilityStore,
    q: ConsoleQuery,
    r: ConsolePage,
)
    requires
        store.wf(),
        call_ensures(WebcatMcp::get_console_logs, (mcp, store, q), r),
    ensures
        observability::console_records(r.entries@) == store@.console_query(
            if q.since_seq is Some {
                q.since_seq->0
            } else {
                0
            },
            text::opt_view(q.level),
            if q.limit is Some {
                q.limit->0 as nat
            } else {
                200
            },
        ),
        r.dropped == store@.console_dropped,
        r.latest_seq == store@.seq,
{
}

/// The same for network events.
pub proof fn law_agent_reads_events(
    mcp: &WebcatMcp,
    store: &ObservabilityStore,
    q: NetworkQuery,
    r: NetworkPage,
)
    requires
        store.wf(),
        call_ensures(WebcatMcp::get_network_logs, (mcp, store, q), r),
    ensures
        observability::network_records(r.entries@) == store@.network_query(
            if q.since_seq is Some {
                q.since_seq->0
            } else {
                0
            },
            q.status,
            if q.limit is Some {
                q.limit->0 as nat
            } else {
                200
            },
        ),
        r.dropped == store@.network_dropped,
        r.latest_seq == store@.seq,
{
}

} // verus!
