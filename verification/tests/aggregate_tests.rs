//! The aggregation views against small concrete snapshots.

use netviz::models::GroupCount;
use netviz::models::Network;
use netviz::stats::compute_stats;
use netviz::stats::ix_facility_correlation;
use netviz::stats::network_type_counts;
use netviz::stats::prefixes_distribution;

fn record(id: i64, name: &str, asn: i64) -> Network {
    Network {
        id,
        name: name.to_string(),
        asn,
        aka: None,
        status: None,
        info_type: None,
        policy_general: None,
        info_scope: None,
        info_prefixes4: None,
        info_prefixes6: None,
        ix_count: None,
        fac_count: None,
        website: None,
    }
}

fn count_of(g: &GroupCount, label: &str) -> Option<usize> {
    for (i, l) in g.labels.iter().enumerate() {
        if l == label {
            return Some(g.counts[i]);
        }
    }
    None
}

#[test]
fn test_type_counts_skip_absent_fields() {
    let mut a = record(1, "a", 1);
    a.info_type = Some("NSP".to_string());
    let mut b = record(2, "b", 2);
    b.info_type = Some("Content".to_string());
    let mut c = record(3, "c", 3);
    c.info_type = Some("NSP".to_string());
    let d = record(4, "d", 4);

    let g = network_type_counts(&vec![a, b, c, d]);
    assert_eq!(g.labels.len(), 2);
    assert_eq!(count_of(&g, "NSP"), Some(2));
    assert_eq!(count_of(&g, "Content"), Some(1));
    let sum: usize = g.counts.iter().sum();
    assert_eq!(sum, 3);
}

#[test]
fn test_stats_totals_and_three_dimensions() {
    let mut a = record(1, "a", 1);
    a.info_type = Some("NSP".to_string());
    a.policy_general = Some("Open".to_string());
    let mut b = record(2, "b", 2);
    b.policy_general = Some("Open".to_string());
    b.info_scope = Some("Global".to_string());
    let c = record(3, "c", 3);

    let s = compute_stats(&vec![a, b, c]);
    assert_eq!(s.total_networks, 3);
    assert_eq!(count_of(&s.network_types, "NSP"), Some(1));
    assert_eq!(count_of(&s.policy_types, "Open"), Some(2));
    assert_eq!(count_of(&s.scopes, "Global"), Some(1));
    assert_eq!(count_of(&s.scopes, ""), None);
    let type_sum: usize = s.network_types.counts.iter().sum();
    assert_eq!(type_sum, 1);
}

#[test]
fn test_prefixes_distribution_takes_first_15_with_both() {
    let mut records: Vec<Network> = Vec::new();
    for i in 0..40 {
        let mut n = record(i, &format!("net-{}", i), i);
        if i % 2 == 0 {
            n.info_prefixes4 = Some(10 + i);
            n.info_prefixes6 = Some(20 + i);
        }
        records.push(n);
    }
    let d = prefixes_distribution(&records);
    assert_eq!(d.networks.len(), 15);
    assert_eq!(d.ipv4.len(), 15);
    assert_eq!(d.ipv6.len(), 15);
    assert_eq!(d.networks[0], "net-0");
    assert_eq!(d.ipv4[0], 10);
    assert_eq!(d.ipv6[0], 20);
    assert_eq!(d.networks[14], "net-28");
    assert_eq!(d.ipv4[14], 38);
}

#[test]
fn test_prefixes_distribution_requires_both_fields() {
    let mut only4 = record(1, "only-v4", 1);
    only4.info_prefixes4 = Some(5);
    let mut only6 = record(2, "only-v6", 2);
    only6.info_prefixes6 = Some(7);
    let mut both = record(3, "both", 3);
    both.info_prefixes4 = Some(1);
    both.info_prefixes6 = Some(2);

    let d = prefixes_distribution(&vec![only4, only6, both]);
    assert_eq!(d.networks, vec!["both".to_string()]);
    assert_eq!(d.ipv4, vec![1]);
    assert_eq!(d.ipv6, vec![2]);
}

#[test]
fn test_prefixes_distribution_truncates_long_names() {
    let long_name = "abcdefghijklmnopqrstuvwxyz-abcdefghijklmnopqrstuvwxyz";
    let mut n = record(1, long_name, 1);
    n.info_prefixes4 = Some(1);
    n.info_prefixes6 = Some(1);
    let d = prefixes_distribution(&vec![n]);
    assert_eq!(d.networks[0], "abcdefghijklmnopqrstuvwxyz-abc...");
}

#[test]
fn test_correlation_keeps_every_complete_record() {
    let mut a = record(1, "a", 1);
    a.ix_count = Some(3);
    a.fac_count = Some(9);
    let b = record(2, "b", 2);
    let mut c = record(3, "c", 3);
    c.ix_count = Some(5);
    c.fac_count = Some(0);
    let mut only_ix = record(4, "d", 4);
    only_ix.ix_count = Some(8);

    let pts = ix_facility_correlation(&vec![a, b, c, only_ix]);
    assert_eq!(pts.len(), 2);
    assert_eq!(pts[0].x, 3);
    assert_eq!(pts[0].y, 9);
    assert_eq!(pts[0].label, "a");
    assert_eq!(pts[1].x, 5);
    assert_eq!(pts[1].y, 0);
    assert_eq!(pts[1].label, "c");
}
