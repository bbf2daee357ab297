//! The data model: one network record, the generic response wrapper the
//! upstream feed uses, the derived statistics, the query parameter types and
//! the configuration surface.

use vstd::prelude::*;

verus! {

/// Envelope of an upstream response: the records live under `data`.
pub struct PeeringDBResponse<T> {
    pub data: Vec<T>,
}

/// One network entity of a snapshot.
///
/// Optional fields stand for dimensions the upstream feed may omit; an
/// absent field is never coerced to zero or to an empty string, and the
/// aggregations skip records that lack the field they group or project on.
pub struct Network {
    /// Opaque identifier of the record.
    pub id: i64,
    /// Display name, always present.
    pub name: String,
    /// Autonomous-system number, always present, not necessarily unique.
    pub asn: i64,
    /// Alternative name.
    pub aka: Option<String>,
    /// Operational status label.
    pub status: Option<String>,
    /// Category label, e.g. a carrier or content classification.
    pub info_type: Option<String>,
    /// Peering policy label.
    pub policy_general: Option<String>,
    /// Geographic scope label.
    pub info_scope: Option<String>,
    /// Number of announced IPv4 prefixes.
    pub info_prefixes4: Option<i64>,
    /// Number of announced IPv6 prefixes.
    pub info_prefixes6: Option<i64>,
    /// Number of exchange points the network is present at.
    pub ix_count: Option<i64>,
    /// Number of facilities the network is present in.
    pub fac_count: Option<i64>,
    /// Website URL.
    pub website: Option<String>,
}

/// The four numeric dimensions are counts: when present they are
/// non-negative.
pub open spec fn record_wf(n: Network) -> bool {
    &&& match n.info_prefixes4 {
        Some(v) => v >= 0,
        None => true,
    }
    &&& match n.info_prefixes6 {
        Some(v) => v >= 0,
        None => true,
    }
    &&& match n.ix_count {
        Some(v) => v >= 0,
        None => true,
    }
    &&& match n.fac_count {
        Some(v) => v >= 0,
        None => true,
    }
}

/// A snapshot is well formed when each of its records is.
pub open spec fn snapshot_wf(s: Seq<Network>) -> bool {
    forall|i: int| 0 <= i < s.len() ==> record_wf(#[trigger] s[i])
}

/// Checks one record's well-formedness at run time.
pub fn check_record(n: &Network) -> (b: bool)
    ensures
        b == record_wf(*n),
{
    let p4_ok = match n.info_prefixes4 {
        Some(v) => v >= 0,
        None => true,
    };
    let p6_ok = match n.info_prefixes6 {
        Some(v) => v >= 0,
        None => true,
    };
    let ix_ok = match n.ix_count {
        Some(v) => v >= 0,
        None => true,
    };
    let fac_ok = match n.fac_count {
        Some(v) => v >= 0,
        None => true,
    };
    p4_ok && p6_ok && ix_ok && fac_ok
}

/// Checks every record of a prospective snapshot.
pub fn check_snapshot(records: &Vec<Network>) -> (b: bool)
    ensures
        b == snapshot_wf(records@),
{
    let mut i: usize = 0;
    while i < records.len()
        invariant
            0 <= i <= records@.len(),
            forall|k: int| 0 <= k < i ==> record_wf(#[trigger] records@[k]),
        decreases records@.len() - i,
    {
        if !check_record(&records[i]) {
            return false;
        }
        i = i + 1;
    }
    true
}

pub(crate) fn clone_opt_string(o: &Option<String>) -> (r: Option<String>)
    ensures
        r == *o,
{
    match o {
        Some(s) => Some(s.clone()),
        None => None,
    }
}

impl Clone for Network {
    /// A clone is equal to the original, field for field.
    fn clone(&self) -> (r: Self)
        ensures
            r == *self,
    {
        Network {
            id: self.id,
            name: self.name.clone(),
            asn: self.asn,
            aka: clone_opt_string(&self.aka),
            status: clone_opt_string(&self.status),
            info_type: clone_opt_string(&self.info_type),
            policy_general: clone_opt_string(&self.policy_general),
            info_scope: clone_opt_string(&self.info_scope),
            info_prefixes4: self.info_prefixes4,
            info_prefixes6: self.info_prefixes6,
            ix_count: self.ix_count,
            fac_count: self.fac_count,
            website: clone_opt_string(&self.website),
        }
    }
}

/// One group-count mapping: `labels[i]` occurred `counts[i]` times. The two
/// sequences are aligned and the labels are pairwise distinct.
pub struct GroupCount {
    pub labels: Vec<String>,
    pub counts: Vec<usize>,
}

/// Statistics derived from a snapshot on demand: the total record count and
/// the three group-count mappings.
pub struct Stats {
    pub total_networks: usize,
    pub network_types: GroupCount,
    pub policy_types: GroupCount,
    pub scopes: GroupCount,
}

/// Parameters of the paginated list query. Absent parameters degrade to the
/// documented defaults; an absent filter does not constrain the result.
pub struct NetworkQuery {
    /// 1-based page number; absent or zero becomes page 1.
    pub page: Option<usize>,
    /// Page size; absent becomes 25, any value is clamped into `[1, 100]`.
    pub per_page: Option<usize>,
    /// Free-text needle matched case-insensitively against the name, the
    /// base-ten ASN and the alternative name.
    pub q: Option<String>,
    /// Exact category filter, ASCII case-insensitive.
    pub type_: Option<String>,
    /// Exact policy filter, ASCII case-insensitive.
    pub policy: Option<String>,
    /// Exact status filter, ASCII case-insensitive.
    pub status: Option<String>,
}

/// Parameters of the search query; with neither present the search returns
/// nothing.
pub struct SearchQuery {
    /// Exact ASN to match.
    pub asn: Option<i64>,
    /// Name needle, matched case-insensitively after being clipped to 100
    /// characters.
    pub name: Option<String>,
}

/// Configuration read once at startup.
pub struct Config {
    /// Address the server binds to.
    pub bind_address: String,
    /// Schedule expression for the periodic refresh.
    pub refresh_cron: String,
}

} // verus!
