//! What the REST clients compute before they send a request: the query
//! string of a path, and which stored token may still be used.
use vstd::prelude::*;
use vstd::string::*;

use crate::text;
use crate::text::{concat, u64_to_decimal};

verus! {

/// A query parameter as `key=value`.
pub open spec fn query_pair_text(p: (Seq<char>, Seq<char>)) -> Seq<char> {
    p.0 + "="@ + p.1
}

/// Query parameters joined with `&`.
pub open spec fn join_query(ps: Seq<(Seq<char>, Seq<char>)>) -> Seq<char>
    decreases ps.len(),
{
    if ps.len() == 0 {
        Seq::empty()
    } else if ps.len() == 1 {
        query_pair_text(ps[0])
    } else {
        join_query(ps.drop_last()) + "&"@ + query_pair_text(ps.last())
    }
}

/// `path` followed by `separator` and the joined parameters, or `path`
/// alone where there are none.
pub open spec fn with_query_spec(
    path: Seq<char>,
    separator: Seq<char>,
    ps: Seq<(Seq<char>, Seq<char>)>,
) -> Seq<char> {
    if ps.len() == 0 {
        path
    } else {
        path + separator + join_query(ps)
    }
}

pub open spec fn pairs_view(v: Seq<(String, String)>) -> Seq<(Seq<char>, Seq<char>)> {
    v.map_values(|p: (String, String)| (p.0@, p.1@))
}

/// `path` with the query parameters appended after `separator` (`?` for a
/// path without a query, `&` for one that has one already).
pub fn with_query(path: &str, separator: &str, params: &Vec<(String, String)>) -> (r: String)
    ensures
        r@ == with_query_spec(path@, separator@, pairs_view(params@)),
{
    let n = params.len();
    if n == 0 {
        return path.to_owned();
    }
    let mut q = String::new();
    let mut i: usize = 0;
    while i < n
        invariant
            n == params@.len(),
            i <= n,
            q@ == join_query(pairs_view(params@).subrange(0, i as int)),
        decreases n - i,
    {
        let (k, v) = (&params[i].0, &params[i].1);
        let ghost before = pairs_view(params@).subrange(0, i as int);
        let ghost after = pairs_view(params@).subrange(0, i + 1);
        proof {
            assert(after.drop_last() =~= before);
            assert(after.last() == (k@, v@));
        }
        if i > 0 {
            q.append("&");
        }
        q.append(k.as_str());
        q.append("=");
        q.append(v.as_str());
        proof {
            if i == 0 {
                assert(before.len() == 0);
                assert(q@ =~= query_pair_text(after[0]));
            } else {
                assert(q@ =~= join_query(before) + "&"@ + query_pair_text(after.last()));
            }
        }
        i = i + 1;
    }
    proof {
        assert(pairs_view(params@).subrange(0, n as int) =~= pairs_view(params@));
    }
    let head = concat(path, separator);
    concat(head.as_str(), q.as_str())
}

/// The parameter `key=value` where `value` is present.
pub open spec fn optional_param(key: Seq<char>, value: Option<Seq<char>>) -> Seq<
    (Seq<char>, Seq<char>),
> {
    match value {
        Some(v) => seq![(key, v)],
        None => Seq::empty(),
    }
}

pub open spec fn decimal_view(n: Option<u32>) -> Option<Seq<char>> {
    match n {
        Some(v) => Some(text::decimal(v as nat)),
        None => None,
    }
}

pub open spec fn opt_str_view(o: Option<&str>) -> Option<Seq<char>> {
    match o {
        Some(s) => Some(s@),
        None => None,
    }
}

/// The parameters of a history query, in the order the clients send them:
/// `limit`, `offset`, `start_time`, `end_time`, then any filters.
pub open spec fn history_params_spec(
    limit: Option<u32>,
    offset: Option<u32>,
    start_time: Option<Seq<char>>,
    end_time: Option<Seq<char>>,
    filters: Seq<(Seq<char>, Seq<char>)>,
) -> Seq<(Seq<char>, Seq<char>)> {
    optional_param("limit"@, decimal_view(limit)) + optional_param(
        "offset"@,
        decimal_view(offset),
    ) + optional_param("start_time"@, start_time) + optional_param("end_time"@, end_time)
        + filters
}

fn push_optional(out: &mut Vec<(String, String)>, key: &str, value: Option<&str>)
    ensures
        pairs_view(final(out)@) == pairs_view(old(out)@) + optional_param(key@, opt_str_view(value)),
{
    if let Some(v) = value {
        let ghost before = pairs_view(out@);
        out.push((key.to_owned(), v.to_owned()));
        proof {
            assert(pairs_view(out@) =~= before + seq![(key@, v@)]);
        }
    } else {
        proof {
            assert(pairs_view(out@) =~= pairs_view(out@) + Seq::<(Seq<char>, Seq<char>)>::empty());
        }
    }
}

fn push_optional_number(out: &mut Vec<(String, String)>, key: &str, value: Option<u32>)
    ensures
        pairs_view(final(out)@) == pairs_view(old(out)@) + optional_param(key@, decimal_view(value)),
{
    match value {
        Some(v) => {
            let t = u64_to_decimal(v as u64);
            push_optional(out, key, Some(t.as_str()));
        },
        None => {
            push_optional(out, key, None);
        },
    }
}

/// The parameters of a history query (see `history_params_spec`).
pub fn history_query_params(
    limit: Option<u32>,
    offset: Option<u32>,
    start_time: Option<&str>,
    end_time: Option<&str>,
    filters: &Vec<(String, String)>,
) -> (r: Vec<(String, String)>)
    ensures
        pairs_view(r@) == history_params_spec(
            limit,
            offset,
            opt_str_view(start_time),
            opt_str_view(end_time),
            pairs_view(filters@),
        ),
{
    let mut out: Vec<(String, String)> = Vec::new();
    proof {
        assert(pairs_view(out@) =~= Seq::<(Seq<char>, Seq<char>)>::empty());
    }
    push_optional_number(&mut out, "limit", limit);
    push_optional_number(&mut out, "offset", offset);
    push_optional(&mut out, "start_time", start_time);
    push_optional(&mut out, "end_time", end_time);
    let n = filters.len();
    let mut i: usize = 0;
    let ghost base = pairs_view(out@);
    proof {
        assert(pairs_view(filters@).subrange(0, 0) =~= Seq::<(Seq<char>, Seq<char>)>::empty());
        assert(base + Seq::<(Seq<char>, Seq<char>)>::empty() =~= base);
    }
    while i < n
        invariant
            n == filters@.len(),
            i <= n,
            pairs_view(out@) == base + pairs_view(filters@).subrange(0, i as int),
        decreases n - i,
    {
        let k = filters[i].0.clone();
        let v = filters[i].1.clone();
        let ghost before = pairs_view(out@);
        out.push((k, v));
        proof {
            assert(pairs_view(out@) =~= before.push((k@, v@)));
            assert(pairs_view(filters@).subrange(0, i + 1) =~= pairs_view(filters@).subrange(
                0,
                i as int,
            ).push((k@, v@)));
        }
        i = i + 1;
    }
    proof {
        assert(pairs_view(filters@).subrange(0, n as int) =~= pairs_view(filters@));
        assert(base =~= optional_param("limit"@, decimal_view(limit)) + optional_param(
            "offset"@,
            decimal_view(offset),
        ) + optional_param("start_time"@, opt_str_view(start_time)) + optional_param(
            "end_time"@,
            opt_str_view(end_time),
        ));
    }
    out
}

/// The filter parameters of an order history query, in the order the client
/// sends them: `symbol`, `side`, `status`, `order_type`.
pub open spec fn order_filter_params_spec(
    symbol: Option<Seq<char>>,
    side: Option<Seq<char>>,
    status: Option<Seq<char>>,
    order_type: Option<Seq<char>>,
) -> Seq<(Seq<char>, Seq<char>)> {
    optional_param("symbol"@, symbol) + optional_param("side"@, side) + optional_param(
        "status"@,
        status,
    ) + optional_param("order_type"@, order_type)
}

/// The filter parameters of an order history query (see `order_filter_params_spec`).
pub fn order_filter_params(
    symbol: Option<&str>,
    side: Option<&str>,
    status: Option<&str>,
    order_type: Option<&str>,
) -> (r: Vec<(String, String)>)
    ensures
        pairs_view(r@) == order_filter_params_spec(
            opt_str_view(symbol),
            opt_str_view(side),
            opt_str_view(status),
            opt_str_view(order_type),
        ),
{
    let mut out: Vec<(String, String)> = Vec::new();
    proof {
        assert(pairs_view(out@) =~= Seq::<(Seq<char>, Seq<char>)>::empty());
    }
    push_optional(&mut out, "symbol", symbol);
    push_optional(&mut out, "side", side);
    push_optional(&mut out, "status", status);
    push_optional(&mut out, "order_type", order_type);
    proof {
        assert(pairs_view(out@) =~= order_filter_params_spec(
            opt_str_view(symbol),
            opt_str_view(side),
            opt_str_view(status),
            opt_str_view(order_type),
        ));
    }
    out
}

/// The parameters of a filtered order history query, in the order the
/// client sends them: the filters first, then `limit`, `offset`,
/// `start_time` and `end_time`.
pub open spec fn filtered_history_params_spec(
    symbol: Option<Seq<char>>,
    side: Option<Seq<char>>,
    status: Option<Seq<char>>,
    order_type: Option<Seq<char>>,
    limit: Option<u32>,
    offset: Option<u32>,
    start_time: Option<Seq<char>>,
    end_time: Option<Seq<char>>,
) -> Seq<(Seq<char>, Seq<char>)> {
    order_filter_params_spec(symbol, side, status, order_type) + history_params_spec(
        limit,
        offset,
        start_time,
        end_time,
        Seq::empty(),
    )
}

/// The parameters of a filtered order history query (see
/// `filtered_history_params_spec`).
pub fn filtered_history_params(
    symbol: Option<&str>,
    side: Option<&str>,
    status: Option<&str>,
    order_type: Option<&str>,
    limit: Option<u32>,
    offset: Option<u32>,
    start_time: Option<&str>,
    end_time: Option<&str>,
) -> (r: Vec<(String, String)>)
    ensures
        pairs_view(r@) == filtered_history_params_spec(
            opt_str_view(symbol),
            opt_str_view(side),
            opt_str_view(status),
            opt_str_view(order_type),
            limit,
            offset,
            opt_str_view(start_time),
            opt_str_view(end_time),
        ),
{
    let mut out = order_filter_params(symbol, side, status, order_type);
    let no_filters: Vec<(String, String)> = Vec::new();
    let mut tail = history_query_params(limit, offset, start_time, end_time, &no_filters);
    let ghost head = out@;
    let ghost rest = tail@;
    out.append(&mut tail);
    proof {
        assert(pairs_view(no_filters@) =~= Seq::<(Seq<char>, Seq<char>)>::empty());
        assert(pairs_view(out@) =~= pairs_view(head) + pairs_view(rest));
    }
    out
}

/// An instant as whole seconds since the epoch and the nanoseconds past them.
pub open spec fn is_later(a: (i64, u32), b: (i64, u32)) -> bool {
    a.0 > b.0 || (a.0 == b.0 && a.1 > b.1)
}

/// The stored token, where there is one and it expires after `now`.
pub open spec fn live_token_spec(stored: Option<(Seq<char>, (i64, u32))>, now: (i64, u32)) -> Option<
    Seq<char>,
> {
    match stored {
        Some((token, expires_at)) => if is_later(expires_at, now) {
            Some(token)
        } else {
            None
        },
        None => None,
    }
}

pub open spec fn stored_view(stored: Option<(&str, (i64, u32))>) -> Option<
    (Seq<char>, (i64, u32)),
> {
    match stored {
        Some((t, e)) => Some((t@, e)),
        None => None,
    }
}

/// The token a client may send: the stored one, while it has not expired.
pub fn live_token(stored: Option<(&str, (i64, u32))>, now: (i64, u32)) -> (r: Option<String>)
    ensures
        opt_string_view(r) == live_token_spec(stored_view(stored), now),
{
    match stored {
        Some((token, expires_at)) => {
            if expires_at.0 > now.0 || (expires_at.0 == now.0 && expires_at.1 > now.1) {
                Some(token.to_owned())
            } else {
                None
            }
        },
        None => None,
    }
}

pub open spec fn opt_string_view(o: Option<String>) -> Option<Seq<char>> {
    match o {
        Some(s) => Some(s@),
        None => None,
    }
}

} // verus!

verus! {

/// A path with no parameters is the path itself; each further parameter
/// `(key, value)` adds `key=value` at the end, after `separator` for the
/// first parameter and after `&` for every later one. So every parameter
/// appears, in order.
pub proof fn lemma_with_query_appends(
    path: Seq<char>,
    separator: Seq<char>,
    ps: Seq<(Seq<char>, Seq<char>)>,
    p: (Seq<char>, Seq<char>),
)
    ensures
        with_query_spec(path, separator, Seq::empty()) == path,
        with_query_spec(path, separator, ps.push(p)) == (if ps.len() == 0 {
            path + separator + p.0 + "="@ + p.1
        } else {
            with_query_spec(path, separator, ps) + "&"@ + p.0 + "="@ + p.1
        }),
{
    let qs = ps.push(p);
    assert(qs.drop_last() =~= ps);
    assert(qs.last() == p);
    if ps.len() == 0 {
        assert(qs.len() == 1);
        assert(qs[0] == p);
        assert(path + separator + (p.0 + "="@ + p.1) =~= path + separator + p.0 + "="@ + p.1);
    } else {
        assert(join_query(qs) == join_query(ps) + "&"@ + query_pair_text(p));
        assert(path + separator + (join_query(ps) + "&"@ + (p.0 + "="@ + p.1)) =~= path
            + separator + join_query(ps) + "&"@ + p.0 + "="@ + p.1);
    }
}

/// A stored token is handed out exactly while its expiry is later than now:
/// later seconds, or the same second and later nanoseconds. Nothing is handed
/// out where no token is stored.
pub proof fn lemma_live_token_until_expiry(
    token: Seq<char>,
    expires_at: (i64, u32),
    now: (i64, u32),
)
    ensures
        live_token_spec(None, now) is None,
        live_token_spec(Some((token, expires_at)), now) == (if expires_at.0 > now.0 || (
        expires_at.0 == now.0 && expires_at.1 > now.1) {
            Some(token)
        } else {
            None::<Seq<char>>
        }),
{
}

/// Number of the given options that are present.
pub open spec fn present_count(
    limit: Option<u32>,
    offset: Option<u32>,
    start_time: Option<Seq<char>>,
    end_time: Option<Seq<char>>,
) -> nat {
    (if limit is Some { 1nat } else { 0nat }) + (if offset is Some { 1nat } else { 0nat }) + (
    if start_time is Some { 1nat } else { 0nat }) + (if end_time is Some { 1nat } else { 0nat })
}

/// A history query sends one parameter for each bound that is given, each
/// under its own key and with its value, before the filters, which follow
/// unchanged and in order; nothing else is sent.
pub proof fn lemma_history_params_send_what_is_given(
    limit: Option<u32>,
    offset: Option<u32>,
    start_time: Option<Seq<char>>,
    end_time: Option<Seq<char>>,
    filters: Seq<(Seq<char>, Seq<char>)>,
)
    ensures
        ({
            let r = history_params_spec(limit, offset, start_time, end_time, filters);
            let k = present_count(limit, offset, start_time, end_time) as int;
            &&& r.len() == k + filters.len()
            &&& r.subrange(k, r.len() as int) == filters
            &&& (limit matches Some(n) ==> r.subrange(0, k).contains(
                ("limit"@, text::decimal(n as nat)),
            ))
            &&& (offset matches Some(n) ==> r.subrange(0, k).contains(
                ("offset"@, text::decimal(n as nat)),
            ))
            &&& (start_time matches Some(t) ==> r.subrange(0, k).contains(("start_time"@, t)))
            &&& (end_time matches Some(t) ==> r.subrange(0, k).contains(("end_time"@, t)))
        }),
{
    let a = optional_param("limit"@, decimal_view(limit));
    let b = optional_param("offset"@, decimal_view(offset));
    let c = optional_param("start_time"@, start_time);
    let d = optional_param("end_time"@, end_time);
    let head = a + b + c + d;
    let r = history_params_spec(limit, offset, start_time, end_time, filters);
    let k = present_count(limit, offset, start_time, end_time) as int;
    assert(r =~= head + filters);
    assert(head.len() == k);
    assert(r.subrange(k, r.len() as int) =~= filters);
    assert(r.subrange(0, k) =~= head);
    if let Some(n) = limit {
        assert(head[0] == ("limit"@, text::decimal(n as nat)));
    }
    if let Some(n) = offset {
        assert(head[a.len() as int] == ("offset"@, text::decimal(n as nat)));
    }
    if let Some(t) = start_time {
        assert(head[(a.len() + b.len()) as int] == ("start_time"@, t));
    }
    if let Some(t) = end_time {
        assert(head[(a.len() + b.len() + c.len()) as int] == ("end_time"@, t));
    }
}

} // verus!

