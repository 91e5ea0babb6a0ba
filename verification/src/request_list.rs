//! The list of price information requests ("/get/request_price_info_list/"):
//! the fields computed from organizations and proposals, and the filters
//! over them.
use vstd::prelude::*;

use crate::model::{CheckStatus, ProposalHeader, RequestHeader, RequestPartner, RequestWithPartners};
use crate::seqs::{concat_all, lemma_filter_take_step, lemma_map_take_step, lemma_take_all};

verus! {

/// The proposals of an organization, in the order they were read.
pub open spec fn proposals_of(proposals: Seq<ProposalHeader>, p: RequestPartner) -> Seq<ProposalHeader> {
    proposals.filter(|h: ProposalHeader| h.supplier_uuid == p.uuid)
}

/// The fields of a row computed from the request's organizations and proposals.
pub struct RequestListExtra {
    /// Supplier ids of the organizations.
    pub supplier_list: Vec<i64>,
    /// Hierarchies of the organizations' proposals.
    pub hierarchy_uuid: Vec<u128>,
    /// Supplier ids of the organizations that made a proposal.
    pub tkp_in: Vec<i64>,
    /// Reviewed proposals and all proposals: `[done, in]`.
    pub tkp_done: Vec<i64>,
}

/// A row of the list.
pub struct RequestListRow {
    pub header: RequestHeader,
    pub extra: RequestListExtra,
}

/// Number of proposals of the organizations.
pub open spec fn count_in(ps: Seq<RequestPartner>, proposals: Seq<ProposalHeader>) -> int
    decreases ps.len(),
{
    if ps.len() == 0 {
        0
    } else {
        count_in(ps.drop_last(), proposals) + proposals_of(proposals, ps.last()).len()
    }
}

/// Number of reviewed proposals of the organizations.
pub open spec fn count_done(ps: Seq<RequestPartner>, proposals: Seq<ProposalHeader>) -> int
    decreases ps.len(),
{
    if ps.len() == 0 {
        0
    } else {
        count_done(ps.drop_last(), proposals) + proposals_of(proposals, ps.last()).filter(
            |h: ProposalHeader| h.status_check_id == CheckStatus::Reviewed,
        ).len()
    }
}

/// The hierarchies of an organization's proposals.
pub open spec fn hierarchies_of(proposals: Seq<ProposalHeader>, p: RequestPartner) -> Seq<u128> {
    proposals_of(proposals, p).filter(|h: ProposalHeader| h.hierarchy_uuid is Some).map_values(
        |h: ProposalHeader| h.hierarchy_uuid->0,
    )
}

/// The computed fields of a request with its organizations.
pub open spec fn extra_of(ps: Seq<RequestPartner>, proposals: Seq<ProposalHeader>, e: RequestListExtra) -> bool {
    &&& e.supplier_list@ == ps.map_values(|p: RequestPartner| p.supplier_id as i64)
    &&& e.tkp_in@ == ps.filter(|p: RequestPartner| proposals_of(proposals, p).len() > 0).map_values(
        |p: RequestPartner| p.supplier_id as i64,
    )
    &&& e.hierarchy_uuid@ == concat_all(ps.map_values(|p: RequestPartner| hierarchies_of(proposals, p)))
    &&& e.tkp_done@ == seq![count_done(ps, proposals) as i64, count_in(ps, proposals) as i64]
}

/// The proposals of an organization with their reviewed count.
#[verifier::loop_isolation(false)]
fn proposals_for(proposals: &Vec<ProposalHeader>, p: &RequestPartner) -> (r: (Vec<ProposalHeader>, usize))
    ensures
        r.0@ == proposals_of(proposals@, *p),
        r.1 as int == proposals_of(proposals@, *p).filter(|h: ProposalHeader| h.status_check_id == CheckStatus::Reviewed).len(),
{
    let ghost pred = |h: ProposalHeader| h.supplier_uuid == p.uuid;
    let ghost rev = |h: ProposalHeader| h.status_check_id == CheckStatus::Reviewed;
    let mut r: Vec<ProposalHeader> = Vec::new();
    let mut done: usize = 0;
    let mut i: usize = 0;
    while i < proposals.len()
        invariant
            i <= proposals@.len(),
            r@ == proposals@.take(i as int).filter(|h: ProposalHeader| h.supplier_uuid == p.uuid),
            done as int == r@.filter(|h: ProposalHeader| h.status_check_id == CheckStatus::Reviewed).len(),
            done <= r@.len(),
            r@.len() <= i,
        decreases proposals.len() - i,
    {
        proof {
            lemma_filter_take_step(proposals@, i as int, pred);
        }
        let h = proposals[i];
        if h.supplier_uuid == p.uuid {
            let ghost before = r@;
            r.push(h);
            proof {
                before.lemma_filter_push(h, rev);
            }
            if h.status_check_id == CheckStatus::Reviewed {
                done = done + 1;
            }
        }
        i += 1;
    }
    proof {
        lemma_take_all(proposals@);
    }
    (r, done)
}

/// The computed fields of a row of the list: the supplier ids of the
/// organizations, those with a proposal, the hierarchies of the proposals,
/// and the counts of reviewed and of all proposals.
#[verifier::loop_isolation(false)]
pub fn build_extra(suppliers: &Vec<RequestPartner>, proposals: &Vec<ProposalHeader>) -> (e: RequestListExtra)
    requires
        suppliers@.len() * proposals@.len() < 0x8000_0000_0000_0000,
    ensures
        extra_of(suppliers@, proposals@, e),
{
    let ghost ps = suppliers@;
    let ghost pr = proposals@;
    let ghost idf = |p: RequestPartner| p.supplier_id as i64;
    let ghost has = |p: RequestPartner| proposals_of(pr, p).len() > 0;
    let ghost hf = |p: RequestPartner| hierarchies_of(pr, p);
    let mut supplier_list: Vec<i64> = Vec::new();
    let mut tkp_in: Vec<i64> = Vec::new();
    let mut hierarchy_uuid: Vec<u128> = Vec::new();
    let mut in_count: i64 = 0;
    let mut done_count: i64 = 0;
    let mut k: usize = 0;
    while k < suppliers.len()
        invariant
            k <= ps.len(),
            supplier_list@ == ps.take(k as int).map_values(idf),
            tkp_in@ == ps.take(k as int).filter(has).map_values(idf),
            hierarchy_uuid@ == concat_all(ps.take(k as int).map_values(hf)),
            in_count as int == count_in(ps.take(k as int), pr),
            done_count as int == count_done(ps.take(k as int), pr),
            0 <= done_count <= in_count <= k * pr.len(),
        decreases suppliers.len() - k,
    {
        let p = &suppliers[k];
        let (props, done) = proposals_for(proposals, p);
        proof {
            let t = ps.take(k + 1);
            assert(t.drop_last() =~= ps.take(k as int));
            assert(t.last() == ps[k as int]);
            lemma_map_take_step(ps, k as int, idf);
            lemma_map_take_step(ps, k as int, hf);
            lemma_filter_take_step(ps, k as int, has);
            let f = ps.take(k as int).filter(has);
            assert(f.push(ps[k as int]).map_values(idf) =~= f.map_values(idf).push(idf(ps[k as int])));
            assert(ps.take(k + 1).map_values(hf).drop_last() =~= ps.take(k as int).map_values(hf));
            proposals@.filter(|h: ProposalHeader| h.supplier_uuid == p.uuid).lemma_filter_len(
                |h: ProposalHeader| h.status_check_id == CheckStatus::Reviewed,
            );
            proposals@.lemma_filter_len(|h: ProposalHeader| h.supplier_uuid == p.uuid);
            assert((k + 1) * pr.len() == k * pr.len() + pr.len()) by (nonlinear_arith);
            assert((k + 1) * pr.len() <= ps.len() * pr.len()) by (nonlinear_arith)
                requires k + 1 <= ps.len();
        }
        supplier_list.push(p.supplier_id as i64);
        if props.len() > 0 {
            tkp_in.push(p.supplier_id as i64);
        }
        let ghost before = hierarchy_uuid@;
        let mut j: usize = 0;
        while j < props.len()
            invariant
                j <= props@.len(),
                props@ == proposals_of(pr, *p),
                hierarchy_uuid@ == before + props@.take(j as int).filter(|h: ProposalHeader| h.hierarchy_uuid is Some).map_values(
                    |h: ProposalHeader| h.hierarchy_uuid->0,
                ),
            decreases props.len() - j,
        {
            proof {
                lemma_filter_take_step(props@, j as int, |h: ProposalHeader| h.hierarchy_uuid is Some);
                let f = props@.take(j as int).filter(|h: ProposalHeader| h.hierarchy_uuid is Some);
                assert(f.push(props@[j as int]).map_values(|h: ProposalHeader| h.hierarchy_uuid->0)
                    =~= f.map_values(|h: ProposalHeader| h.hierarchy_uuid->0).push(props@[j as int].hierarchy_uuid->0));
            }
            match props[j].hierarchy_uuid {
                Some(u) => {
                    hierarchy_uuid.push(u);
                },
                None => {},
            }
            proof {
                assert(hierarchy_uuid@ =~= before + props@.take(j + 1).filter(|h: ProposalHeader| h.hierarchy_uuid is Some).map_values(
                    |h: ProposalHeader| h.hierarchy_uuid->0,
                ));
            }
            j += 1;
        }
        proof {
            lemma_take_all(props@);
        }
        in_count = in_count + props.len() as i64;
        done_count = done_count + done as i64;
        k += 1;
    }
    proof {
        lemma_take_all(ps);
    }
    let mut tkp_done: Vec<i64> = Vec::new();
    tkp_done.push(done_count);
    tkp_done.push(in_count);
    proof {
        assert(tkp_done@ =~= seq![count_done(ps, pr) as i64, count_in(ps, pr) as i64]);
    }
    RequestListExtra { supplier_list, hierarchy_uuid, tkp_in, tkp_done }
}

} // verus!

verus! {

/// A value of a filter sent by the user.
#[derive(Clone, Copy, Debug, PartialEq, Eq, Structural)]
pub enum FilterValue {
    Int(i64),
    /// A value of another type, which matches no computed field.
    Other,
}

/// A filter of the list: a field and its values.
pub struct RowFilter {
    pub field: String,
    pub values: Vec<FilterValue>,
}

/// Some filter value is an integer among the field's values.
pub open spec fn matches_any(values: Seq<FilterValue>, field: Seq<i64>) -> bool {
    exists|i: int, j: int| 0 <= i < values.len() && 0 <= j < field.len() && #[trigger] values[i] == FilterValue::Int(
        #[trigger] field[j],
    )
}

/// The filter values are exactly the field's values, as integers.
pub open spec fn matches_eq(values: Seq<FilterValue>, field: Seq<i64>) -> bool {
    values.len() == field.len() && forall|i: int| 0 <= i < values.len() ==> #[trigger] values[i] == FilterValue::Int(field[i])
}

/// Whether a row passes one filter: "supplier_list" and "tkp_in" keep rows
/// where the field holds one of the values, "tkp_done" rows where it equals
/// the values; filters of other fields are done by the database.
pub open spec fn row_passes(row: RequestListRow, f: RowFilter) -> bool {
    if f.field@ == "supplier_list"@ {
        matches_any(f.values@, row.extra.supplier_list@)
    } else if f.field@ == "tkp_in"@ {
        matches_any(f.values@, row.extra.tkp_in@)
    } else if f.field@ == "tkp_done"@ {
        matches_eq(f.values@, row.extra.tkp_done@)
    } else {
        true
    }
}

/// Whether some filter value is among the field's values.
fn any_match(values: &Vec<FilterValue>, field: &Vec<i64>) -> (b: bool)
    ensures
        b == matches_any(values@, field@),
{
    let mut i: usize = 0;
    while i < values.len()
        invariant
            i <= values@.len(),
            forall|a: int, c: int| 0 <= a < i && 0 <= c < field@.len() ==> #[trigger] values@[a] != FilterValue::Int(#[trigger] field@[c]),
        decreases values.len() - i,
    {
        match values[i] {
            FilterValue::Int(v) => {
                let mut j: usize = 0;
                while j < field.len()
                    invariant
                        j <= field@.len(),
                        i < values@.len(),
                        values@[i as int] == FilterValue::Int(v),
                        forall|c: int| 0 <= c < j ==> field@[c] != v,
                    decreases field.len() - j,
                {
                    if field[j] == v {
                        proof {
                            assert(values@[i as int] == FilterValue::Int(field@[j as int]));
                        }
                        return true;
                    }
                    j += 1;
                }
            },
            FilterValue::Other => {},
        }
        i += 1;
    }
    false
}

/// Whether the filter values equal the field's values.
fn eq_match(values: &Vec<FilterValue>, field: &Vec<i64>) -> (b: bool)
    ensures
        b == matches_eq(values@, field@),
{
    if values.len() != field.len() {
        return false;
    }
    let mut i: usize = 0;
    while i < values.len()
        invariant
            i <= values@.len(),
            values@.len() == field@.len(),
            forall|a: int| 0 <= a < i ==> #[trigger] values@[a] == FilterValue::Int(field@[a]),
        decreases values.len() - i,
    {
        if values[i] != FilterValue::Int(field[i]) {
            return false;
        }
        i += 1;
    }
    true
}

/// Whether a row passes a filter, as `row_passes` states it.
pub fn passes(row: &RequestListRow, f: &RowFilter) -> (b: bool)
    ensures
        b == row_passes(*row, *f),
{
    if f.field == crate::text::owned("supplier_list") {
        any_match(&f.values, &row.extra.supplier_list)
    } else if f.field == crate::text::owned("tkp_in") {
        any_match(&f.values, &row.extra.tkp_in)
    } else if f.field == crate::text::owned("tkp_done") {
        eq_match(&f.values, &row.extra.tkp_done)
    } else {
        true
    }
}

/// The rows that pass every filter, in order.
pub open spec fn passes_all(row: RequestListRow, filters: Seq<RowFilter>) -> bool {
    forall|i: int| 0 <= i < filters.len() ==> row_passes(row, #[trigger] filters[i])
}

/// Filters the rows by the computed fields.
#[verifier::loop_isolation(false)]
pub fn filter(items: Vec<RequestListRow>, filters: &Vec<RowFilter>) -> (r: Vec<RequestListRow>)
    ensures
        r@ == items@.filter(|row: RequestListRow| passes_all(row, filters@)),
{
    let ghost rs = items@;
    let ghost pred = |row: RequestListRow| passes_all(row, filters@);
    let mut r: Vec<RequestListRow> = Vec::new();
    for row in it: items.into_iter()
        invariant
            it.seq() == rs,
            r@ == rs.take(it.index() as int).filter(pred),
    {
        proof {
            assert(row == rs[it.index() as int]);
            lemma_filter_take_step(rs, it.index() as int, pred);
        }
        let mut ok = true;
        let mut k: usize = 0;
        while k < filters.len()
            invariant
                k <= filters@.len(),
                ok == forall|i: int| 0 <= i < k ==> row_passes(row, #[trigger] filters@[i]),
            decreases filters.len() - k,
        {
            if !passes(&row, &filters[k]) {
                ok = false;
            }
            k += 1;
        }
        if ok {
            r.push(row);
        }
    }
    proof {
        lemma_take_all(rs);
    }
    r
}

} // verus!

verus! {

/// A request for the list of a section of the user interface: the fields
/// asked for and the filters over the computed fields.
pub struct GeneralGetRequestPriceListReq<T> {
    pub section_id: T,
    pub field_list: Vec<String>,
    pub filter_list: Vec<RowFilter>,
}

} // verus!
