//! Filters: conditions on objects that the mixer leaves out. Built-in
//! filters keep the mixer's own capture streams, and those of other mixers,
//! out of view; a configured filter with the id of a built-in one replaces
//! it.

use vstd::prelude::*;

use crate::config::matching::{MatchCondition, MatchValue};
use crate::config::property_key::PropertyKey;
use crate::text::str_eq;

verus! {

/// Objects that meet one of the conditions are left out.
#[derive(Debug)]
pub struct Filter {
    pub id: Option<String>,
    pub matches: Vec<MatchCondition>,
}

/// The filter's only condition is that the property `node.name` is `value`.
pub open spec fn filters_node_name(f: Filter, value: Seq<char>) -> bool {
    &&& f.matches@.len() == 1
    &&& f.matches@[0].0@.len() == 1
    &&& f.matches@[0].0@[0].0 matches PropertyKey::Bare(name) && name@ == "node.name"@
    &&& f.matches@[0].0@[0].1 matches MatchValue::Literal(v) && v@ == value
}

pub open spec fn id_text(f: Filter) -> Option<Seq<char>> {
    match f.id {
        Some(id) => Some(id@),
        None => None,
    }
}

fn node_name_filter(id: Option<String>, value: &str) -> (f: Filter)
    ensures
        f.id == id,
        filters_node_name(f, value@),
{
    let mut condition: Vec<(PropertyKey, MatchValue)> = Vec::new();
    condition.push((PropertyKey::Bare(String::from_str("node.name")), MatchValue::Literal(String::from_str(value))));
    let mut matches: Vec<MatchCondition> = Vec::new();
    matches.push(MatchCondition(condition));
    Filter { id, matches }
}

/// The first filter in `filters` with the id `id`.
pub open spec fn id_position(filters: Seq<Filter>, id: Seq<char>) -> Option<int>
    decreases filters.len(),
{
    if filters.len() == 0 {
        None
    } else if id_text(filters[0]) == Some(id) {
        Some(0)
    } else {
        match id_position(filters.skip(1), id) {
            Some(p) => Some(p + 1),
            None => None,
        }
    }
}

/// The filters after adding `f`: it replaces the first filter with its id,
/// else it is added at the end.
pub open spec fn merged_with(filters: Seq<Filter>, f: Filter) -> Seq<Filter> {
    match id_text(f) {
        Some(id) => match id_position(filters, id) {
            Some(p) => filters.update(p, f),
            None => filters.push(f),
        },
        None => filters.push(f),
    }
}

/// The filters after adding each of `configured` in turn.
pub open spec fn merged_all(filters: Seq<Filter>, configured: Seq<Filter>) -> Seq<Filter>
    decreases configured.len(),
{
    if configured.len() == 0 {
        filters
    } else {
        merged_all(merged_with(filters, configured[0]), configured.skip(1))
    }
}

proof fn lemma_id_position(filters: Seq<Filter>, id: Seq<char>, n: int)
    requires
        0 <= n <= filters.len(),
        forall|j: int| 0 <= j < n ==> id_text(#[trigger] filters[j]) != Some(id),
        n < filters.len() ==> id_text(filters[n]) == Some(id),
    ensures
        id_position(filters, id) == if n < filters.len() {
            Some(n)
        } else {
            None::<int>
        },
    decreases n,
{
    if n > 0 {
        assert forall|j: int| 0 <= j < n - 1 implies id_text(#[trigger] filters.skip(1)[j]) != Some(id) by {
            assert(filters.skip(1)[j] == filters[j + 1]);
        }
        if n < filters.len() {
            assert(filters.skip(1)[n - 1] == filters[n]);
        }
        lemma_id_position(filters.skip(1), id, n - 1);
    }
}

fn same_id(a: &Option<String>, b: &String) -> (same: bool)
    ensures
        same == (match a {
            Some(a) => a@ == b@,
            None => false,
        }),
{
    match a {
        Some(a) => str_eq(a.as_str(), b.as_str()),
        None => false,
    }
}

/// The position of the first filter with the id `id`.
fn find_filter(filters: &Vec<Filter>, id: &String) -> (position: Option<usize>)
    ensures
        match position {
            Some(p) => p < filters@.len() && id_position(filters@, id@) == Some(p as int),
            None => id_position(filters@, id@) is None,
        },
{
    let mut j: usize = 0;
    while j < filters.len()
        invariant
            j <= filters@.len(),
            forall|x: int| 0 <= x < j ==> id_text(#[trigger] filters@[x]) != Some(id@),
        decreases filters.len() - j,
    {
        if same_id(&filters[j].id, id) {
            proof {
                lemma_id_position(filters@, id@, j as int);
            }
            return Some(j);
        }
        j += 1;
    }
    proof {
        lemma_id_position(filters@, id@, filters@.len() as int);
    }
    None
}

impl Filter {
    /// The built-in filters: the mixer's own capture streams (which cannot
    /// be replaced), and those of pavucontrol and ncpamixer.
    pub fn defaults() -> (filters: Vec<Filter>)
        ensures
            filters@.len() == 3,
            filters@[0].id is None,
            filters_node_name(filters@[0], "wiremix-capture"@),
            id_text(filters@[1]) == Some("pavucontrol-capture"@),
            filters_node_name(filters@[1], "PulseAudio Volume Control"@),
            id_text(filters@[2]) == Some("ncpamixer-capture"@),
            filters_node_name(filters@[2], "ncpamixer"@),
    {
        let mut filters: Vec<Filter> = Vec::new();
        filters.push(node_name_filter(None, "wiremix-capture"));
        filters.push(node_name_filter(Some(String::from_str("pavucontrol-capture")), "PulseAudio Volume Control"));
        filters.push(node_name_filter(Some(String::from_str("ncpamixer-capture")), "ncpamixer"));
        filters
    }

    /// The built-in filters with the configured ones added in order: a
    /// configured filter replaces the first filter with its id, else it is
    /// added at the end.
    pub fn merge_with_defaults(configured: Vec<Filter>) -> (merged: Vec<Filter>)
        ensures
            exists|defaults: Seq<Filter>|
                defaults.len() == 3 && defaults[0].id is None && filters_node_name(
                    defaults[0],
                    "wiremix-capture"@,
                ) && id_text(defaults[1]) == Some("pavucontrol-capture"@) && filters_node_name(
                    defaults[1],
                    "PulseAudio Volume Control"@,
                ) && id_text(defaults[2]) == Some("ncpamixer-capture"@) && filters_node_name(
                    defaults[2],
                    "ncpamixer"@,
                ) && merged@ == merged_all(defaults, configured@),
    {
        let mut merged = Filter::defaults();
        let ghost defaults = merged@;
        let ghost all = configured@;
        let mut rest = configured;
        let mut i: usize = 0;
        let n = rest.len();
        assert(all.skip(0) =~= all);
        while i < n
            invariant
                n == all.len(),
                i <= n,
                rest@ == all.skip(i as int),
                merged_all(defaults, all) == merged_all(merged@, all.skip(i as int)),
            decreases n - i,
        {
            assert(rest@[0] == all[i as int]);
            let filter = rest.remove(0);
            assert(rest@ =~= all.skip(i + 1));
            assert(all.skip(i as int).skip(1) =~= all.skip(i + 1));
            let ghost before = merged@;
            let position = match &filter.id {
                Some(id) => find_filter(&merged, id),
                None => None,
            };
            match position {
                Some(p) => {
                    merged.set(p, filter);
                },
                None => {
                    merged.push(filter);
                },
            }
            assert(merged@ == merged_with(before, all[i as int]));
            i += 1;
        }
        assert(all.skip(n as int) =~= Seq::<Filter>::empty());
        merged
    }
}

} // verus!
