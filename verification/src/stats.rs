//! The aggregation views: the three group-counts, the first-N dual-metric
//! projection and the paired-metric scatter projection.
//!
//! A record with the relevant field absent contributes to no bucket and to
//! no projection; absence is never coerced to zero or to an empty string.

use vstd::prelude::*;

verus! {

broadcast use vstd::seq_lib::group_seq_lib_default;

use crate::models::GroupCount;
use crate::models::Network;
use crate::models::Stats;
use crate::models::clone_opt_string;
use crate::query::lemma_filter_push;
use crate::text::truncate_chars;
use crate::text::truncated_chars;

/// 1 when the field holds exactly label `l`, else 0.
pub open spec fn label_of(o: Option<String>, l: Seq<char>) -> int {
    match o {
        Some(s) => if s@ == l {
            1
        } else {
            0
        },
        None => 0,
    }
}

/// How many entries of the column hold exactly label `l`.
pub open spec fn count_label(col: Seq<Option<String>>, l: Seq<char>) -> int
    decreases col.len(),
{
    if col.len() == 0 {
        0
    } else {
        count_label(col.drop_last(), l) + label_of(col.last(), l)
    }
}

/// How many entries of the column are present at all.
pub open spec fn count_present(col: Seq<Option<String>>) -> int
    decreases col.len(),
{
    if col.len() == 0 {
        0
    } else {
        count_present(col.drop_last()) + if col.last() is Some {
            1int
        } else {
            0
        }
    }
}

/// The sum of all bucket counts.
pub open spec fn sum_counts(counts: Seq<usize>) -> int
    decreases counts.len(),
{
    if counts.len() == 0 {
        0
    } else {
        sum_counts(counts.drop_last()) + counts.last()
    }
}

/// Everything a group-count promises of its column: the two sequences are
/// aligned, labels are pairwise distinct, each bucket counts exactly the
/// entries holding its label, every bucket stems from at least one present
/// entry (absent fields feed no bucket), every label that occurs is
/// represented, and the bucket counts sum to the number of present entries.
pub open spec fn group_count_correct(g: GroupCount, col: Seq<Option<String>>) -> bool {
    &&& g.labels@.len() == g.counts@.len()
    &&& forall|a: int, b: int|
        #![trigger g.labels@[a], g.labels@[b]]
        0 <= a < b < g.labels@.len() ==> g.labels@[a]@ != g.labels@[b]@
    &&& forall|k: int|
        0 <= k < g.labels@.len() ==> g.counts@[k] as int == count_label(
            col,
            #[trigger] g.labels@[k]@,
        )
    &&& forall|k: int| 0 <= k < g.counts@.len() ==> #[trigger] g.counts@[k] >= 1
    &&& forall|l: Seq<char>|
        #[trigger] count_label(col, l) > 0 ==> exists|k: int|
            0 <= k < g.labels@.len() && #[trigger] g.labels@[k]@ == l
    &&& sum_counts(g.counts@) == count_present(col)
}

proof fn lemma_count_label_push(col: Seq<Option<String>>, x: Option<String>, l: Seq<char>)
    ensures
        count_label(col.push(x), l) == count_label(col, l) + label_of(x, l),
{
    assert(col.push(x).drop_last() =~= col);
    assert(col.push(x).last() == x);
}

proof fn lemma_count_present_push(col: Seq<Option<String>>, x: Option<String>)
    ensures
        count_present(col.push(x)) == count_present(col) + if x is Some {
            1int
        } else {
            0
        },
{
    assert(col.push(x).drop_last() =~= col);
    assert(col.push(x).last() == x);
}

proof fn lemma_sum_counts_push(counts: Seq<usize>, x: usize)
    ensures
        sum_counts(counts.push(x)) == sum_counts(counts) + x,
{
    assert(counts.push(x).drop_last() =~= counts);
    assert(counts.push(x).last() == x);
}

proof fn lemma_sum_counts_update(counts: Seq<usize>, j: int, v: usize)
    requires
        0 <= j < counts.len(),
    ensures
        sum_counts(counts.update(j, v)) == sum_counts(counts) - counts[j] + v,
    decreases counts.len(),
{
    if j == counts.len() - 1 {
        assert(counts.update(j, v).drop_last() =~= counts.drop_last());
        assert(counts.update(j, v).last() == v);
    } else {
        assert(counts.update(j, v).drop_last() =~= counts.drop_last().update(j, v));
        assert(counts.update(j, v).last() == counts.last());
        lemma_sum_counts_update(counts.drop_last(), j, v);
    }
}

proof fn lemma_count_label_bounds(col: Seq<Option<String>>, l: Seq<char>)
    ensures
        0 <= count_label(col, l) <= col.len(),
    decreases col.len(),
{
    if col.len() > 0 {
        lemma_count_label_bounds(col.drop_last(), l);
    }
}

/// The index of `s` among the labels, when it is there.
fn find_label(labels: &Vec<String>, s: &String) -> (r: Option<usize>)
    ensures
        match r {
            Some(j) => 0 <= j < labels@.len() && labels@[j as int]@ == s@,
            None => forall|k: int| 0 <= k < labels@.len() ==> labels@[k]@ != s@,
        },
{
    let mut j: usize = 0;
    while j < labels.len()
        invariant
            0 <= j <= labels@.len(),
            forall|k: int| 0 <= k < j ==> labels@[k]@ != s@,
        decreases labels@.len() - j,
    {
        if *s == labels[j] {
            return Some(j);
        }
        j = j + 1;
    }
    None
}

/// Counts how often each present label occurs in the column. Entries with
/// the field absent feed no bucket.
pub fn group_count(col: &Vec<Option<String>>) -> (g: GroupCount)
    ensures
        group_count_correct(g, col@),
{
    let mut labels: Vec<String> = Vec::new();
    let mut counts: Vec<usize> = Vec::new();
    let mut i: usize = 0;
    while i < col.len()
        invariant
            0 <= i <= col@.len(),
            labels@.len() == counts@.len(),
            forall|a: int, b: int|
                #![trigger labels@[a], labels@[b]]
                0 <= a < b < labels@.len() ==> labels@[a]@ != labels@[b]@,
            forall|k: int|
                0 <= k < labels@.len() ==> counts@[k] as int == count_label(
                    col@.take(i as int),
                    #[trigger] labels@[k]@,
                ),
            forall|k: int| 0 <= k < counts@.len() ==> #[trigger] counts@[k] >= 1,
            forall|l: Seq<char>|
                #[trigger] count_label(col@.take(i as int), l) > 0 ==> exists|k: int|
                    0 <= k < labels@.len() && #[trigger] labels@[k]@ == l,
            sum_counts(counts@) == count_present(col@.take(i as int)),
        decreases col@.len() - i,
    {
        let ghost prev = col@.take(i as int);
        let ghost entry = col@[i as int];
        proof {
            assert(col@.take(i as int + 1) =~= prev.push(entry));
            lemma_count_present_push(prev, entry);
            assert forall|l: Seq<char>| #[trigger] count_label(col@.take(i as int + 1), l)
                == count_label(prev, l) + label_of(entry, l) by {
                lemma_count_label_push(prev, entry, l);
            }
        }
        match &col[i] {
            None => {
                proof {
                    assert(forall|l: Seq<char>| label_of(entry, l) == 0);
                    assert forall|l: Seq<char>|
                        #[trigger] count_label(col@.take(i as int + 1), l) > 0 implies exists|
                        k: int,
                    |
                        0 <= k < labels@.len() && #[trigger] labels@[k]@ == l by {
                        assert(count_label(prev, l) > 0);
                    }
                }
            },
            Some(s) => {
                proof {
                    assert(entry == Some(*s));
                    assert(forall|l: Seq<char>|
                        label_of(entry, l) == if s@ == l {
                            1int
                        } else {
                            0
                        });
                }
                match find_label(&labels, s) {
                    Some(j) => {
                        proof {
                            lemma_count_label_bounds(prev, labels@[j as int]@);
                            lemma_sum_counts_update(
                                counts@,
                                j as int,
                                (counts@[j as int] + 1) as usize,
                            );
                        }
                        let c = counts[j];
                        counts.set(j, c + 1);
                        proof {
                            assert forall|k: int|
                                0 <= k < labels@.len() implies counts@[k] as int == count_label(
                                col@.take(i as int + 1),
                                labels@[k]@,
                            ) by {
                                if k != j as int {
                                    assert(labels@[k]@ != labels@[j as int]@);
                                    assert(label_of(entry, labels@[k]@) == 0);
                                }
                            }
                            assert forall|l: Seq<char>|
                                #[trigger] count_label(col@.take(i as int + 1), l) > 0 implies
                                exists|k: int|
                                0 <= k < labels@.len() && #[trigger] labels@[k]@ == l by {
                                lemma_count_label_bounds(prev, l);
                                if count_label(prev, l) > 0 {
                                } else {
                                    assert(label_of(entry, l) == 1);
                                    assert(l == s@);
                                    assert(labels@[j as int]@ == l);
                                }
                            }
                        }
                    },
                    None => {
                        proof {
                            lemma_count_label_bounds(prev, s@);
                            assert(count_label(prev, s@) == 0);
                        }
                        let ghost labels0 = labels@;
                        let ghost counts0 = counts@;
                        labels.push(s.clone());
                        counts.push(1);
                        proof {
                            assert(counts@ == counts0.push(1));
                            lemma_sum_counts_push(counts0, 1);
                            assert(sum_counts(counts@) == sum_counts(counts0) + 1);
                            let new_len = labels@.len() as int;
                            assert(labels@[new_len - 1]@ == s@);
                            assert forall|k: int|
                                0 <= k < labels@.len() implies counts@[k] as int == count_label(
                                col@.take(i as int + 1),
                                labels@[k]@,
                            ) by {
                                if k < new_len - 1 {
                                    assert(labels@[k]@ != s@);
                                    assert(label_of(entry, labels@[k]@) == 0);
                                }
                            }
                            assert forall|l: Seq<char>|
                                #[trigger] count_label(col@.take(i as int + 1), l) > 0 implies
                                exists|k: int|
                                0 <= k < labels@.len() && #[trigger] labels@[k]@ == l by {
                                lemma_count_label_bounds(prev, l);
                                if count_label(prev, l) > 0 {
                                    let k0 = choose|k: int|
                                        0 <= k < labels0.len() && #[trigger] labels0[k]@ == l;
                                    assert(labels@[k0] == labels0[k0]);
                                    assert(labels@[k0]@ == l);
                                } else {
                                    assert(label_of(entry, l) == 1);
                                    assert(l == s@);
                                    assert(labels@[new_len - 1]@ == l);
                                }
                            }
                        }
                    },
                }
            },
        }
        i = i + 1;
    }
    proof {
        assert(col@.take(col@.len() as int) =~= col@);
    }
    GroupCount { labels, counts }
}

/// The category column of a snapshot.
pub open spec fn type_column_spec(rs: Seq<Network>) -> Seq<Option<String>> {
    rs.map_values(|n: Network| n.info_type)
}

/// The policy column of a snapshot.
pub open spec fn policy_column_spec(rs: Seq<Network>) -> Seq<Option<String>> {
    rs.map_values(|n: Network| n.policy_general)
}

/// The scope column of a snapshot.
pub open spec fn scope_column_spec(rs: Seq<Network>) -> Seq<Option<String>> {
    rs.map_values(|n: Network| n.info_scope)
}

fn type_column(records: &Vec<Network>) -> (c: Vec<Option<String>>)
    ensures
        c@ == type_column_spec(records@),
{
    let mut out: Vec<Option<String>> = Vec::new();
    let mut i: usize = 0;
    while i < records.len()
        invariant
            0 <= i <= records@.len(),
            out@ == type_column_spec(records@.take(i as int)),
        decreases records@.len() - i,
    {
        out.push(clone_opt_string(&records[i].info_type));
        proof {
            assert(out@ =~= type_column_spec(records@.take(i as int + 1)));
        }
        i = i + 1;
    }
    proof {
        assert(records@.take(records@.len() as int) =~= records@);
    }
    out
}

fn policy_column(records: &Vec<Network>) -> (c: Vec<Option<String>>)
    ensures
        c@ == policy_column_spec(records@),
{
    let mut out: Vec<Option<String>> = Vec::new();
    let mut i: usize = 0;
    while i < records.len()
        invariant
            0 <= i <= records@.len(),
            out@ == policy_column_spec(records@.take(i as int)),
        decreases records@.len() - i,
    {
        out.push(clone_opt_string(&records[i].policy_general));
        proof {
            assert(out@ =~= policy_column_spec(records@.take(i as int + 1)));
        }
        i = i + 1;
    }
    proof {
        assert(records@.take(records@.len() as int) =~= records@);
    }
    out
}

fn scope_column(records: &Vec<Network>) -> (c: Vec<Option<String>>)
    ensures
        c@ == scope_column_spec(records@),
{
    let mut out: Vec<Option<String>> = Vec::new();
    let mut i: usize = 0;
    while i < records.len()
        invariant
            0 <= i <= records@.len(),
            out@ == scope_column_spec(records@.take(i as int)),
        decreases records@.len() - i,
    {
        out.push(clone_opt_string(&records[i].info_scope));
        proof {
            assert(out@ =~= scope_column_spec(records@.take(i as int + 1)));
        }
        i = i + 1;
    }
    proof {
        assert(records@.take(records@.len() as int) =~= records@);
    }
    out
}

/// What `compute_stats` promises: the exact total and a correct group-count
/// for each of the three dimensions.
pub open spec fn stats_correct(s: Stats, rs: Seq<Network>) -> bool {
    &&& s.total_networks == rs.len()
    &&& group_count_correct(s.network_types, type_column_spec(rs))
    &&& group_count_correct(s.policy_types, policy_column_spec(rs))
    &&& group_count_correct(s.scopes, scope_column_spec(rs))
}

/// Builds the dashboard statistics fresh from a snapshot.
pub fn compute_stats(records: &Vec<Network>) -> (s: Stats)
    ensures
        stats_correct(s, records@),
{
    let tc = type_column(records);
    let pc = policy_column(records);
    let sc = scope_column(records);
    Stats {
        total_networks: records.len(),
        network_types: group_count(&tc),
        policy_types: group_count(&pc),
        scopes: group_count(&sc),
    }
}

/// A column derived from a field selector has as many present entries as
/// there are records on which the selector yields a value.
pub proof fn lemma_count_present_matches_filter(
    rs: Seq<Network>,
    field: spec_fn(Network) -> Option<String>,
)
    ensures
        count_present(rs.map_values(field)) == rs.filter(|n: Network| field(n) is Some).len(),
    decreases rs.len(),
{
    reveal(Seq::filter);
    let col = rs.map_values(field);
    let pred = |n: Network| field(n) is Some;
    if rs.len() == 0 {
        assert(col =~= Seq::<Option<String>>::empty());
    } else {
        let prefix = rs.drop_last();
        lemma_count_present_matches_filter(prefix, field);
        assert(col.drop_last() =~= prefix.map_values(field));
        assert(col.last() == field(rs.last()));
    }
}

/// Category bucket counts sum to the number of records whose category is
/// present: a record without one contributes to no bucket.
pub proof fn lemma_type_counts_sum(g: GroupCount, rs: Seq<Network>)
    requires
        group_count_correct(g, type_column_spec(rs)),
    ensures
        sum_counts(g.counts@) == rs.filter(|n: Network| n.info_type is Some).len(),
{
    let field = |n: Network| n.info_type;
    lemma_count_present_matches_filter(rs, field);
    assert((|n: Network| field(n) is Some) =~= (|n: Network| n.info_type is Some));
}

/// Policy bucket counts sum to the number of records whose policy is
/// present.
pub proof fn lemma_policy_counts_sum(g: GroupCount, rs: Seq<Network>)
    requires
        group_count_correct(g, policy_column_spec(rs)),
    ensures
        sum_counts(g.counts@) == rs.filter(|n: Network| n.policy_general is Some).len(),
{
    let field = |n: Network| n.policy_general;
    lemma_count_present_matches_filter(rs, field);
    assert((|n: Network| field(n) is Some) =~= (|n: Network| n.policy_general is Some));
}

/// Scope bucket counts sum to the number of records whose scope is
/// present.
pub proof fn lemma_scope_counts_sum(g: GroupCount, rs: Seq<Network>)
    requires
        group_count_correct(g, scope_column_spec(rs)),
    ensures
        sum_counts(g.counts@) == rs.filter(|n: Network| n.info_scope is Some).len(),
{
    let field = |n: Network| n.info_scope;
    lemma_count_present_matches_filter(rs, field);
    assert((|n: Network| field(n) is Some) =~= (|n: Network| n.info_scope is Some));
}

/// The category group-count alone, for the JSON endpoint.
pub fn network_type_counts(records: &Vec<Network>) -> (g: GroupCount)
    ensures
        group_count_correct(g, type_column_spec(records@)),
{
    let tc = type_column(records);
    group_count(&tc)
}

/// Both prefix-count fields are present.
pub open spec fn has_both_prefixes(n: Network) -> bool {
    n.info_prefixes4 is Some && n.info_prefixes6 is Some
}

/// The records carrying both prefix counts, in snapshot order.
pub open spec fn prefix_eligible(rs: Seq<Network>) -> Seq<Network> {
    rs.filter(|n: Network| has_both_prefixes(n))
}

/// The first 15 eligible records — deliberately the first in snapshot
/// order with full data, not the largest by value.
pub open spec fn prefix_chosen(rs: Seq<Network>) -> Seq<Network> {
    let e = prefix_eligible(rs);
    if e.len() <= 15 {
        e
    } else {
        e.take(15)
    }
}

/// Three aligned sequences: display names truncated to 30 characters, the
/// IPv4 prefix counts and the IPv6 prefix counts, index for index.
pub struct PrefixDistribution {
    pub networks: Vec<String>,
    pub ipv4: Vec<i64>,
    pub ipv6: Vec<i64>,
}

/// What the prefix projection promises: one aligned entry per chosen
/// record, names truncated by character count.
pub open spec fn prefix_distribution_correct(d: PrefixDistribution, rs: Seq<Network>) -> bool {
    let chosen = prefix_chosen(rs);
    &&& d.networks@.len() == chosen.len()
    &&& d.ipv4@.len() == chosen.len()
    &&& d.ipv6@.len() == chosen.len()
    &&& forall|k: int|
        0 <= k < chosen.len() ==> #[trigger] d.networks@[k]@ == truncated_chars(
            chosen[k].name@,
            30,
        )
    &&& forall|k: int| 0 <= k < chosen.len() ==> #[trigger] d.ipv4@[k] == chosen[k].info_prefixes4->0
    &&& forall|k: int| 0 <= k < chosen.len() ==> #[trigger] d.ipv6@[k] == chosen[k].info_prefixes6->0
}


/// Projects the first 15 records that carry both prefix counts.
pub fn prefixes_distribution(records: &Vec<Network>) -> (d: PrefixDistribution)
    ensures
        prefix_distribution_correct(d, records@),
{
    let mut networks: Vec<String> = Vec::new();
    let mut ipv4: Vec<i64> = Vec::new();
    let mut ipv6: Vec<i64> = Vec::new();
    let mut i: usize = 0;
    while i < records.len() && networks.len() < 15
        invariant
            0 <= i <= records@.len(),
            networks@.len() == prefix_eligible(records@.take(i as int)).len(),
            ipv4@.len() == networks@.len(),
            ipv6@.len() == networks@.len(),
            networks@.len() <= 15,
            forall|k: int|
                0 <= k < networks@.len() ==> #[trigger] networks@[k]@ == truncated_chars(
                    prefix_eligible(records@.take(i as int))[k].name@,
                    30,
                ),
            forall|k: int|
                0 <= k < networks@.len() ==> #[trigger] ipv4@[k] == prefix_eligible(
                    records@.take(i as int),
                )[k].info_prefixes4->0,
            forall|k: int|
                0 <= k < networks@.len() ==> #[trigger] ipv6@[k] == prefix_eligible(
                    records@.take(i as int),
                )[k].info_prefixes6->0,
        decreases records@.len() - i,
    {
        let n = &records[i];
        proof {
            assert(records@.take(i as int + 1) =~= records@.take(i as int).push(
                records@[i as int],
            ));
            lemma_filter_push(
                records@.take(i as int),
                records@[i as int],
                |x: Network| has_both_prefixes(x),
            );
        }
        if n.info_prefixes4.is_some() && n.info_prefixes6.is_some() {
            networks.push(truncate_chars(n.name.as_str(), 30));
            ipv4.push(n.info_prefixes4.unwrap());
            ipv6.push(n.info_prefixes6.unwrap());
        }
        i = i + 1;
    }
    proof {
        let full = records@;
        let e_i = prefix_eligible(full.take(i as int));
        if i == records@.len() {
            assert(full.take(full.len() as int) =~= full);
            assert(prefix_chosen(full) == e_i);
        } else {
            assert(networks@.len() == 15);
            assert(full =~= full.take(i as int) + full.skip(i as int));
            assert(prefix_eligible(full) == e_i + prefix_eligible(full.skip(i as int)));
            assert(prefix_eligible(full).take(15) =~= e_i);
            assert(prefix_chosen(full) == e_i);
        }
    }
    PrefixDistribution { networks, ipv4, ipv6 }
}

/// Both correlation fields are present.
pub open spec fn has_both_counts(n: Network) -> bool {
    n.ix_count is Some && n.fac_count is Some
}

/// One point of the correlation view: exchange count against facility
/// count, labelled with the record's name.
pub struct ScatterPoint {
    pub x: i64,
    pub y: i64,
    pub label: String,
}

/// The point a record contributes when both fields are present.
pub open spec fn point_of(n: Network) -> ScatterPoint {
    ScatterPoint { x: n.ix_count->0, y: n.fac_count->0, label: n.name }
}

/// Every record carrying both counts contributes exactly one point, in
/// snapshot order, with no limit and no sorting.
pub open spec fn scatter_points(rs: Seq<Network>) -> Seq<ScatterPoint>
    decreases rs.len(),
{
    if rs.len() == 0 {
        Seq::empty()
    } else {
        scatter_points(rs.drop_last()) + if has_both_counts(rs.last()) {
            seq![point_of(rs.last())]
        } else {
            Seq::empty()
        }
    }
}

proof fn lemma_scatter_push(rs: Seq<Network>, n: Network)
    ensures
        scatter_points(rs.push(n)) == scatter_points(rs) + if has_both_counts(n) {
            seq![point_of(n)]
        } else {
            Seq::empty()
        },
{
    assert(rs.push(n).drop_last() =~= rs);
    assert(rs.push(n).last() == n);
}

/// Projects every record with both an exchange count and a facility count
/// onto one labelled point.
pub fn ix_facility_correlation(records: &Vec<Network>) -> (pts: Vec<ScatterPoint>)
    ensures
        pts@ == scatter_points(records@),
{
    let mut pts: Vec<ScatterPoint> = Vec::new();
    let mut i: usize = 0;
    while i < records.len()
        invariant
            0 <= i <= records@.len(),
            pts@ == scatter_points(records@.take(i as int)),
        decreases records@.len() - i,
    {
        let n = &records[i];
        proof {
            assert(records@.take(i as int + 1) =~= records@.take(i as int).push(
                records@[i as int],
            ));
            lemma_scatter_push(records@.take(i as int), records@[i as int]);
        }
        if n.ix_count.is_some() && n.fac_count.is_some() {
            pts.push(
                ScatterPoint {
                    x: n.ix_count.unwrap(),
                    y: n.fac_count.unwrap(),
                    label: n.name.clone(),
                },
            );
            proof {
                assert(pts@ =~= scatter_points(records@.take(i as int)) + seq![
                    point_of(records@[i as int]),
                ]);
            }
        } else {
            proof {
                assert(scatter_points(records@.take(i as int)) + Seq::<ScatterPoint>::empty()
                    =~= scatter_points(records@.take(i as int)));
            }
        }
        i = i + 1;
    }
    proof {
        assert(records@.take(records@.len() as int) =~= records@);
    }
    pts
}

} // verus!
