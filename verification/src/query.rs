//! The list and search queries: conjunctive filtering, pagination and the
//! explicit-criteria search, as pure functions over a snapshot.

use vstd::prelude::*;

verus! {

broadcast use vstd::seq_lib::group_seq_lib_default;

use vstd::arithmetic::div_mod::lemma_basic_div;
use vstd::arithmetic::div_mod::lemma_div_nonincreasing;
use vstd::arithmetic::div_mod::lemma_div_plus_one;
use vstd::arithmetic::div_mod::lemma_fundamental_div_mod;
use crate::models::Network;
use crate::models::NetworkQuery;
use crate::models::SearchQuery;
use crate::text::ascii_eq_ignore_case;
use crate::text::clip_chars;
use crate::text::contains_seq;
use crate::text::int_repr;
use crate::text::lower_of;
use crate::text::clip_to_chars;
use crate::text::i64_to_string;
use crate::text::str_contains;
use crate::text::str_eq_ignore_ascii_case;
use crate::text::to_lowercase;

/// The free-text needle matches a record when its lowercase form occurs in
/// the lowercase name, in the base-ten ASN, or in the lowercase alternative
/// name when one is present.
pub open spec fn text_matches(n: Network, needle: Seq<char>) -> bool {
    ||| contains_seq(lower_of(n.name@), lower_of(needle))
    ||| contains_seq(int_repr(n.asn as int), lower_of(needle))
    ||| match n.aka {
        Some(a) => contains_seq(lower_of(a@), lower_of(needle)),
        None => false,
    }
}

/// An exact filter matches only a present field, ASCII case-insensitively.
pub open spec fn field_matches(field: Option<String>, wanted: Seq<char>) -> bool {
    match field {
        Some(v) => ascii_eq_ignore_case(v@, wanted),
        None => false,
    }
}

/// A record is listed only if it satisfies every filter the query supplies;
/// an absent filter constrains nothing.
pub open spec fn list_matches(n: Network, q: NetworkQuery) -> bool {
    &&& match q.q {
        Some(t) => text_matches(n, t@),
        None => true,
    }
    &&& match q.type_ {
        Some(t) => field_matches(n.info_type, t@),
        None => true,
    }
    &&& match q.policy {
        Some(p) => field_matches(n.policy_general, p@),
        None => true,
    }
    &&& match q.status {
        Some(s) => field_matches(n.status, s@),
        None => true,
    }
}

/// The records that pass every supplied filter, in snapshot order.
pub open spec fn list_filtered(rs: Seq<Network>, q: NetworkQuery) -> Seq<Network> {
    rs.filter(|n: Network| list_matches(n, q))
}

/// The page number actually used for an absent or out-of-range parameter:
/// absent or zero becomes 1.
pub open spec fn default_page(page: Option<usize>) -> int {
    match page {
        None => 1,
        Some(p) => if p < 1 {
            1
        } else {
            p as int
        },
    }
}

/// The page size actually used: absent becomes 25, anything else is clamped
/// into `[1, 100]`.
pub open spec fn clamped_per_page(per_page: Option<usize>) -> int {
    match per_page {
        None => 25,
        Some(p) => if p < 1 {
            1
        } else if p > 100 {
            100
        } else {
            p as int
        },
    }
}

/// Ceiling division for non-negative totals and positive page sizes.
pub open spec fn ceil_div(total: int, per_page: int) -> int {
    (total + per_page - 1) / per_page
}

/// A requested page beyond the last page falls back to the last page,
/// unless there are no pages at all.
pub open spec fn effective_page(requested: int, total_pages: int) -> int {
    if total_pages > 0 && requested > total_pages {
        total_pages
    } else {
        requested
    }
}

/// The slice of `s` that 1-based page `page` shows at page size `per_page`:
/// records `[(page-1)*per_page, page*per_page)` clipped to the end of `s`,
/// and empty when the page starts past the end.
pub open spec fn page_slice(s: Seq<Network>, per_page: int, page: int) -> Seq<Network> {
    let start = (page - 1) * per_page;
    if 0 <= start < s.len() {
        s.subrange(start, if start + per_page <= s.len() { start + per_page } else { s.len() as int })
    } else {
        Seq::empty()
    }
}

/// One page of list results together with the pagination facts.
pub struct ListResult {
    /// The records of the returned page, in snapshot order.
    pub networks: Vec<Network>,
    /// The page actually served.
    pub page: usize,
    /// The page size actually used.
    pub per_page: usize,
    /// Number of pages the filtered set fills.
    pub total_pages: usize,
    /// Number of records that pass the filters.
    pub total_networks: usize,
}

/// Everything the list query promises: the filters are applied
/// conjunctively in snapshot order, `total_pages` is the ceiling of
/// total over page size, an overshooting page number falls back to the
/// last page, and the returned slice is exactly that page, never longer
/// than the page size.
pub open spec fn list_result_correct(r: ListResult, rs: Seq<Network>, q: NetworkQuery) -> bool {
    let f = list_filtered(rs, q);
    let pp = clamped_per_page(q.per_page);
    let tp = ceil_div(f.len() as int, pp);
    let page = effective_page(default_page(q.page), tp);
    &&& r.per_page as int == pp
    &&& r.total_networks == f.len()
    &&& r.total_pages as int == tp
    &&& r.page as int == page
    &&& r.networks@ == page_slice(f, pp, page)
    &&& r.networks@.len() <= pp
}

/// Decides `list_matches` at run time.
pub fn matches_list_query(n: &Network, query: &NetworkQuery) -> (b: bool)
    ensures
        b == list_matches(*n, *query),
{
    let text_ok = match &query.q {
        None => true,
        Some(t) => {
            let needle = to_lowercase(t.as_str());
            let name_lower = to_lowercase(n.name.as_str());
            if str_contains(name_lower.as_str(), needle.as_str()) {
                true
            } else {
                let asn_text = i64_to_string(n.asn);
                if str_contains(asn_text.as_str(), needle.as_str()) {
                    true
                } else {
                    match &n.aka {
                        Some(a) => {
                            let aka_lower = to_lowercase(a.as_str());
                            str_contains(aka_lower.as_str(), needle.as_str())
                        },
                        None => false,
                    }
                }
            }
        },
    };
    let type_ok = match &query.type_ {
        None => true,
        Some(t) => field_eq(&n.info_type, t),
    };
    let policy_ok = match &query.policy {
        None => true,
        Some(p) => field_eq(&n.policy_general, p),
    };
    let status_ok = match &query.status {
        None => true,
        Some(s) => field_eq(&n.status, s),
    };
    text_ok && type_ok && policy_ok && status_ok
}

/// Decides `field_matches` at run time.
fn field_eq(field: &Option<String>, wanted: &String) -> (b: bool)
    ensures
        b == field_matches(*field, wanted@),
{
    match field {
        Some(v) => str_eq_ignore_ascii_case(v.as_str(), wanted.as_str()),
        None => false,
    }
}

/// `filter` grows by the pushed element exactly when the element passes.
pub(crate) proof fn lemma_filter_push<A>(s: Seq<A>, x: A, pred: spec_fn(A) -> bool)
    ensures
        s.push(x).filter(pred) == if pred(x) {
            s.filter(pred).push(x)
        } else {
            s.filter(pred)
        },
{
    reveal(Seq::filter);
    assert(s.push(x).drop_last() =~= s);
    assert(s.push(x).last() == x);
}

/// Applies every supplied filter over the whole snapshot, preserving order.
pub fn filter_networks(records: &Vec<Network>, query: &NetworkQuery) -> (r: Vec<Network>)
    ensures
        r@ == list_filtered(records@, *query),
{
    let mut out: Vec<Network> = Vec::new();
    let mut i: usize = 0;
    while i < records.len()
        invariant
            0 <= i <= records@.len(),
            out@ == list_filtered(records@.take(i as int), *query),
        decreases records@.len() - i,
    {
        let n = &records[i];
        proof {
            assert(records@.take(i as int + 1).drop_last() =~= records@.take(i as int));
            assert(records@.take(i as int + 1) =~= records@.take(i as int).push(records@[i as int]));
            lemma_filter_push(
                records@.take(i as int),
                records@[i as int],
                |x: Network| list_matches(x, *query),
            );
        }
        if matches_list_query(n, query) {
            out.push(n.clone());
        }
        i = i + 1;
    }
    proof {
        assert(records@.take(records@.len() as int) =~= records@);
    }
    out
}

/// An empty text parameter counts as absent: a form submitted with a blank
/// field must not filter anything.
pub fn none_if_empty(s: Option<String>) -> (r: Option<String>)
    ensures
        r == match s {
            Some(t) => if t@.len() == 0 {
                None::<String>
            } else {
                Some(t)
            },
            None => None::<String>,
        },
{
    match s {
        None => None,
        Some(t) => if t.as_str().is_empty() {
            None
        } else {
            Some(t)
        },
    }
}

/// The page number actually used for the given parameter.
pub fn resolve_page(page: Option<usize>) -> (p: usize)
    ensures
        p as int == default_page(page),
        p >= 1,
{
    match page {
        None => 1,
        Some(p) => if p < 1 {
            1
        } else {
            p
        },
    }
}

/// The page size actually used for the given parameter.
pub fn resolve_per_page(per_page: Option<usize>) -> (pp: usize)
    ensures
        pp as int == clamped_per_page(per_page),
        1 <= pp <= 100,
{
    match per_page {
        None => 25,
        Some(p) => if p < 1 {
            1
        } else if p > 100 {
            100
        } else {
            p
        },
    }
}

/// Ceiling division stated in a form without overflow.
pub fn total_pages_for(total: usize, per_page: usize) -> (tp: usize)
    requires
        1 <= per_page,
    ensures
        tp as int == ceil_div(total as int, per_page as int),
        tp <= total,
{
    if total == 0 {
        proof {
            lemma_basic_div(per_page as int - 1, per_page as int);
        }
        0
    } else {
        proof {
            lemma_div_nonincreasing(total as int - 1, per_page as int);
            lemma_div_plus_one(total as int - 1, per_page as int);
        }
        1 + (total - 1) / per_page
    }
}

/// Start and end indices of a page: `start = (page-1)*per_page` saturated
/// at `usize::MAX`, `end = start + per_page` clipped to `total`.
pub fn page_bounds(page: usize, per_page: usize, total: usize) -> (b: (usize, usize))
    requires
        1 <= page,
        1 <= per_page,
    ensures
        b.0 as int == if (page as int - 1) * (per_page as int) <= usize::MAX as int {
            (page as int - 1) * (per_page as int)
        } else {
            usize::MAX as int
        },
        b.1 as int == if b.0 as int + per_page as int <= total as int {
            b.0 as int + per_page as int
        } else {
            total as int
        },
{
    let start = match (page - 1).checked_mul(per_page) {
        Some(v) => v,
        None => usize::MAX,
    };
    let end_unclipped = start.saturating_add(per_page);
    let end = if end_unclipped <= total {
        end_unclipped
    } else {
        total
    };
    (start, end)
}

/// The number of pages is enough to cover the whole sequence: the last page
/// ends at or past the end, and the page before it starts strictly inside.
pub proof fn lemma_ceil_div_covers(total: int, per_page: int)
    requires
        1 <= total,
        1 <= per_page,
    ensures
        (ceil_div(total, per_page) - 1) * per_page < total,
        total <= ceil_div(total, per_page) * per_page,
        ceil_div(total, per_page) >= 1,
{
    let p = per_page;
    let q = (total + p - 1) / p;
    let r = (total + p - 1) % p;
    lemma_fundamental_div_mod(total + p - 1, p);
    assert(total + p - 1 == q * p + r);
    vstd::arithmetic::div_mod::lemma_div_pos_is_pos(total + p - 1, p);
    assert(total == (q - 1) * p + (r + 1)) by (nonlinear_arith)
        requires
            total + p - 1 == q * p + r,
    ;
    assert((q - 1) * p < total);
    assert(total <= q * p);
    assert(q >= 1) by (nonlinear_arith)
        requires
            total == (q - 1) * p + (r + 1),
            0 <= r < p,
            total >= 1,
            p >= 1,
    ;
}

/// Filter, paginate and report the pagination facts, exactly as
/// `list_result_correct` states them.
pub fn list_networks(records: &Vec<Network>, query: &NetworkQuery) -> (r: ListResult)
    ensures
        list_result_correct(r, records@, *query),
{
    let filtered = filter_networks(records, query);
    let total = filtered.len();
    let requested_page = resolve_page(query.page);
    let per_page = resolve_per_page(query.per_page);
    let total_pages = total_pages_for(total, per_page);
    let page = if total_pages > 0 && requested_page > total_pages {
        total_pages
    } else {
        requested_page
    };
    proof {
        if total > 0 {
            lemma_ceil_div_covers(total as int, per_page as int);
        }
    }
    let bounds = page_bounds(page, per_page, total);
    let start = bounds.0;
    let end = bounds.1;
    let mut networks: Vec<Network> = Vec::new();
    if start < total {
        let mut j = start;
        while j < end
            invariant
                start <= j <= end,
                end <= filtered@.len(),
                networks@ == filtered@.subrange(start as int, j as int),
            decreases end - j,
        {
            proof {
                assert(filtered@.subrange(start as int, j as int).push(filtered@[j as int])
                    =~= filtered@.subrange(start as int, j as int + 1));
            }
            networks.push(filtered[j].clone());
            j = j + 1;
        }
    } else {
        proof {
            assert(networks@ =~= Seq::<Network>::empty());
        }
    }
    ListResult { networks, page, per_page, total_pages, total_networks: total }
}

/// A record satisfies the search when it has exactly the requested ASN or
/// when the clipped, lowercased name needle occurs in its lowercase name.
pub open spec fn search_matches(n: Network, q: SearchQuery) -> bool {
    ||| match q.asn {
        Some(a) => n.asn == a,
        None => false,
    }
    ||| match q.name {
        Some(nm) => contains_seq(lower_of(n.name@), lower_of(clip_chars(nm@, 100))),
        None => false,
    }
}

/// What the search returns: nothing without explicit criteria, otherwise
/// every matching record in snapshot order.
pub open spec fn search_results(rs: Seq<Network>, q: SearchQuery) -> Seq<Network> {
    if q.asn is None && q.name is None {
        Seq::empty()
    } else {
        rs.filter(|n: Network| search_matches(n, q))
    }
}

/// Searches by exact ASN and/or case-insensitive name substring; with no
/// criteria the result is empty, never the whole snapshot.
pub fn search_networks(records: &Vec<Network>, query: &SearchQuery) -> (r: Vec<Network>)
    ensures
        r@ == search_results(records@, *query),
{
    let name_needle: Option<String> = match &query.name {
        Some(nm) => {
            let clipped = clip_to_chars(nm.as_str(), 100);
            Some(to_lowercase(clipped.as_str()))
        },
        None => None,
    };
    if query.asn.is_none() && name_needle.is_none() {
        let empty: Vec<Network> = Vec::new();
        return empty;
    }
    let mut out: Vec<Network> = Vec::new();
    let mut i: usize = 0;
    while i < records.len()
        invariant
            0 <= i <= records@.len(),
            out@ == records@.take(i as int).filter(|n: Network| search_matches(n, *query)),
            match query.name {
                Some(nm) => name_needle is Some && name_needle->0@ == lower_of(
                    clip_chars(nm@, 100),
                ),
                None => name_needle is None,
            },
        decreases records@.len() - i,
    {
        let n = &records[i];
        let asn_ok = match query.asn {
            Some(a) => a == n.asn,
            None => false,
        };
        let name_ok = match &name_needle {
            Some(needle) => {
                let name_lower = to_lowercase(n.name.as_str());
                str_contains(name_lower.as_str(), needle.as_str())
            },
            None => false,
        };
        proof {
            assert(records@.take(i as int + 1) =~= records@.take(i as int).push(
                records@[i as int],
            ));
            lemma_filter_push(
                records@.take(i as int),
                records@[i as int],
                |x: Network| search_matches(x, *query),
            );
        }
        if asn_ok || name_ok {
            out.push(n.clone());
        }
        i = i + 1;
    }
    proof {
        assert(records@.take(records@.len() as int) =~= records@);
    }
    out
}

/// The pages `1..=k` of `s`, concatenated in order.
pub open spec fn pages_concat(s: Seq<Network>, per_page: int, k: int) -> Seq<Network>
    decreases k,
{
    if k <= 0 {
        Seq::empty()
    } else {
        pages_concat(s, per_page, k - 1) + page_slice(s, per_page, k)
    }
}

proof fn lemma_pages_concat_prefix(s: Seq<Network>, p: int, k: int)
    requires
        1 <= p,
        0 <= k,
    ensures
        pages_concat(s, p, k) == if k * p <= s.len() {
            s.take(k * p)
        } else {
            s
        },
    decreases k,
{
    if k == 0 {
        assert(s.take(0) =~= Seq::<Network>::empty());
    } else {
        lemma_pages_concat_prefix(s, p, k - 1);
        let start = (k - 1) * p;
        assert(k * p == (k - 1) * p + p) by (nonlinear_arith);
        assert((k - 1) * p >= 0) by (nonlinear_arith)
            requires
                k >= 1,
                p >= 1,
        ;
        if start >= s.len() {
            assert(pages_concat(s, p, k - 1) == s || pages_concat(s, p, k - 1) == s.take(start));
            if start <= s.len() {
                assert(s.take(s.len() as int) =~= s);
            }
        } else {
            assert(pages_concat(s, p, k - 1) == s.take(start));
            if start + p <= s.len() {
                assert(s.take(start) + s.subrange(start, start + p) =~= s.take(start + p));
            } else {
                assert(s.take(start) + s.subrange(start, s.len() as int) =~= s);
            }
        }
    }
}

/// Concatenating all pages in order, at any page size, reproduces the whole
/// sequence exactly once. Applied to `list_filtered`, this says the list
/// query's pages partition the filtered set.
pub proof fn lemma_pages_cover_all(s: Seq<Network>, per_page: int)
    requires
        1 <= per_page,
    ensures
        pages_concat(s, per_page, ceil_div(s.len() as int, per_page)) == s,
{
    let tp = ceil_div(s.len() as int, per_page);
    if s.len() == 0 {
        lemma_basic_div(per_page - 1, per_page);
        assert(tp == 0);
        assert(pages_concat(s, per_page, 0) =~= s);
    } else {
        lemma_ceil_div_covers(s.len() as int, per_page);
        lemma_pages_concat_prefix(s, per_page, tp);
        if tp * per_page <= s.len() {
            assert(s.take(s.len() as int) =~= s);
        }
    }
}

/// A record appears on a page of list results only if it satisfies every
/// supplied filter.
pub proof fn lemma_list_page_conjunctive(
    rs: Seq<Network>,
    q: NetworkQuery,
    per_page: int,
    page: int,
    i: int,
)
    requires
        1 <= per_page,
        0 <= i < page_slice(list_filtered(rs, q), per_page, page).len(),
    ensures
        list_matches(page_slice(list_filtered(rs, q), per_page, page)[i], q),
{
    let f = list_filtered(rs, q);
    let sl = page_slice(f, per_page, page);
    let start = (page - 1) * per_page;
    if 0 <= start < f.len() {
        let end = if start + per_page <= f.len() {
            start + per_page
        } else {
            f.len() as int
        };
        assert(sl == f.subrange(start, end));
        assert(sl[i] == f[start + i]);
        assert(list_matches(f[start + i], q));
    } else {
        assert(sl.len() == 0);
    }
}

/// With only an ASN given, the search returns exactly the records carrying
/// that ASN.
pub proof fn lemma_search_asn_only(rs: Seq<Network>, a: i64)
    ensures
        search_results(rs, SearchQuery { asn: Some(a), name: None }) == rs.filter(
            |n: Network| n.asn == a,
        ),
{
    let q = SearchQuery { asn: Some(a), name: None };
    assert((|n: Network| search_matches(n, q)) =~= (|n: Network| n.asn == a));
}

/// With only a name given, the search returns exactly the records whose
/// lowercase name contains the clipped, lowercased needle.
pub proof fn lemma_search_name_only(rs: Seq<Network>, nm: String)
    ensures
        search_results(rs, SearchQuery { asn: None, name: Some(nm) }) == rs.filter(
            |n: Network| contains_seq(lower_of(n.name@), lower_of(clip_chars(nm@, 100))),
        ),
{
    let q = SearchQuery { asn: None, name: Some(nm) };
    let name_pred = |n: Network| contains_seq(lower_of(n.name@), lower_of(clip_chars(nm@, 100)));
    assert((|n: Network| search_matches(n, q)) =~= name_pred);
}

/// The first `limit` records of the snapshot, in order; all of them when
/// the snapshot is shorter.
pub fn recent_networks(records: &Vec<Network>, limit: usize) -> (r: Vec<Network>)
    ensures
        r@ == if records@.len() <= limit {
            records@
        } else {
            records@.take(limit as int)
        },
{
    let n = if limit <= records.len() {
        limit
    } else {
        records.len()
    };
    let mut out: Vec<Network> = Vec::new();
    let mut i: usize = 0;
    while i < n
        invariant
            0 <= i <= n,
            n <= records@.len(),
            out@ == records@.take(i as int),
        decreases n - i,
    {
        proof {
            assert(records@.take(i as int).push(records@[i as int]) =~= records@.take(
                i as int + 1,
            ));
        }
        out.push(records[i].clone());
        i = i + 1;
    }
    proof {
        if records@.len() <= limit {
            assert(records@.take(records@.len() as int) =~= records@);
        }
    }
    out
}

} // verus!
