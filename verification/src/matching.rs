//! Matching clients to available properties within their budget range.
use vstd::prelude::*;
use crate::models::{Client, Property};
use crate::text::str_eq;

verus! {

/// Whether `price` lies in the budget: between both bounds when both are
/// set, above the minimum or below the maximum when only one is, and never
/// when the client has no budget.
pub open spec fn within_budget(min: Option<i64>, max: Option<i64>, price: i64) -> bool {
    match (min, max) {
        (Some(lo), Some(hi)) => lo <= price && price <= hi,
        (Some(lo), None) => price >= lo,
        (None, Some(hi)) => price <= hi,
        (None, None) => false,
    }
}

/// Whether a property is offered to a client: it is available and its price
/// lies in the client's budget.
pub open spec fn is_match(c: Client, p: Property) -> bool {
    p.status@ == "available"@ && within_budget(c.budget_min, c.budget_max, p.price)
}

/// Whether `price` lies in the budget.
pub fn budget_matches(min: Option<i64>, max: Option<i64>, price: i64) -> (r: bool)
    ensures
        r == within_budget(min, max, price),
{
    match (min, max) {
        (Some(lo), Some(hi)) => lo <= price && price <= hi,
        (Some(lo), None) => price >= lo,
        (None, Some(hi)) => price <= hi,
        (None, None) => false,
    }
}

/// Whether a property is offered to a client.
pub fn property_matches(client: &Client, property: &Property) -> (r: bool)
    ensures
        r == is_match(*client, *property),
{
    str_eq(property.status.as_str(), "available") && budget_matches(
        client.budget_min,
        client.budget_max,
        property.price,
    )
}

/// The positions in `ps[..k]` of the properties offered to `c`, in order.
pub open spec fn matches_upto(c: Client, ps: Seq<Property>, k: int) -> Seq<int>
    decreases k,
{
    if k <= 0 {
        Seq::empty()
    } else {
        let r = matches_upto(c, ps, k - 1);
        if is_match(c, ps[k - 1]) {
            r.push(k - 1)
        } else {
            r
        }
    }
}

/// The positions of the properties offered to a client, in listing order.
pub fn matched_properties(client: &Client, properties: &Vec<Property>) -> (r: Vec<usize>)
    ensures
        r@.map_values(|i: usize| i as int) == matches_upto(
            *client,
            properties@,
            properties@.len() as int,
        ),
{
    let mut r: Vec<usize> = Vec::new();
    let n = properties.len();
    let mut i: usize = 0;
    while i < n
        invariant
            n == properties@.len(),
            i <= n,
            r@.map_values(|x: usize| x as int) == matches_upto(*client, properties@, i as int),
        decreases n - i,
    {
        let ghost before = r@;
        if property_matches(client, &properties[i]) {
            r.push(i);
            assert(r@.map_values(|x: usize| x as int) == before.map_values(|x: usize| x as int).push(
                i as int,
            ));
        }
        i = i + 1;
    }
    r
}

/// Law: a property is listed for a client exactly when it is available and
/// priced within the client's budget; the list keeps the listing order and
/// names no property twice.
pub proof fn law_matches_exact(c: Client, ps: Seq<Property>)
    ensures
        forall|i: int|
            0 <= i < ps.len() ==> (matches_upto(c, ps, ps.len() as int).contains(i) <==> is_match(
                c,
                #[trigger] ps[i],
            )),
        forall|a: int, b: int|
            0 <= a < b < matches_upto(c, ps, ps.len() as int).len() ==> matches_upto(
                c,
                ps,
                ps.len() as int,
            )[a] < matches_upto(c, ps, ps.len() as int)[b],
{
    lemma_matches_upto(c, ps, ps.len() as int);
}

proof fn lemma_matches_upto(c: Client, ps: Seq<Property>, k: int)
    requires
        0 <= k <= ps.len(),
    ensures
        forall|i: int|
            0 <= i < k ==> (matches_upto(c, ps, k).contains(i) <==> is_match(c, #[trigger] ps[i])),
        forall|j: int|
            0 <= j < matches_upto(c, ps, k).len() ==> 0 <= #[trigger] matches_upto(c, ps, k)[j] < k,
        forall|a: int, b: int|
            0 <= a < b < matches_upto(c, ps, k).len() ==> matches_upto(c, ps, k)[a] < matches_upto(
                c,
                ps,
                k,
            )[b],
    decreases k,
{
    if k > 0 {
        lemma_matches_upto(c, ps, k - 1);
        let r = matches_upto(c, ps, k - 1);
        assert forall|i: int| 0 <= i < k implies (matches_upto(c, ps, k).contains(i) <==> is_match(
            c,
            #[trigger] ps[i],
        )) by {
            if is_match(c, ps[k - 1]) {
                if i == k - 1 {
                    assert(r.push(k - 1)[r.len() as int] == k - 1);
                } else {
                    let rp = r.push(k - 1);
                    if rp.contains(i) {
                        let j = choose|j: int| 0 <= j < rp.len() && #[trigger] rp[j] == i;
                        assert(j < r.len());
                        assert(r[j] == i);
                    }
                    if r.contains(i) {
                        let j = choose|j: int| 0 <= j < r.len() && #[trigger] r[j] == i;
                        assert(r.push(k - 1)[j] == i);
                    }
                }
            } else {
                if i == k - 1 {
                    if r.contains(i) {
                        let j = choose|j: int| 0 <= j < r.len() && #[trigger] r[j] == i;
                        assert(r[j] < k - 1);
                    }
                }
            }
        }
    }
}

} // verus!
