//! Marking proposals as considered or not in the price analysis
//! ("/proposal/apply_pricing/"): the review recorded on each proposal, the
//! matching of organizations to the names the monolith gives, and the
//! messages of the outcome.
use vstd::prelude::*;

use crate::messages::{plain, Message, MessageKind, MessageView, Messages, ParamItem, ParamItemView};
use crate::model::{CheckStatus, ProposalHeader, ReviewResult, TcpError};
use crate::text::{concat, decimal, decimals, i32_to_string, i64_to_string, join, owned};

verus! {

/// The review that the user's choice records: considered when the user
/// says so, not considered otherwise (also when the choice is absent).
pub open spec fn review_of(is_apply_pricing_consider: Option<bool>) -> ReviewResult {
    if is_apply_pricing_consider == Some(true) {
        ReviewResult::Consider
    } else {
        ReviewResult::Ignore
    }
}

/// The review that the user's choice records.
pub fn review_result(is_apply_pricing_consider: Option<bool>) -> (r: ReviewResult)
    ensures
        r == review_of(is_apply_pricing_consider),
{
    match is_apply_pricing_consider {
        Some(true) => ReviewResult::Consider,
        _ => ReviewResult::Ignore,
    }
}

/// A proposal after the review: reviewed, with the result, changed by the
/// user at the moment.
pub open spec fn reviewed(h: ProposalHeader, result: ReviewResult, user_id: i32, now: i64) -> ProposalHeader {
    ProposalHeader { changed_at: now, changed_by: user_id, result_id: Some(result), status_check_id: CheckStatus::Reviewed, ..h }
}

/// The proposals after the review.
pub fn review_proposals(proposals: Vec<ProposalHeader>, result: ReviewResult, user_id: i32, now: i64) -> (r: Vec<
    ProposalHeader,
>)
    ensures
        r@.len() == proposals@.len(),
        forall|i: int| 0 <= i < r@.len() ==> #[trigger] r@[i] == reviewed(proposals@[i], result, user_id, now),
{
    let mut r: Vec<ProposalHeader> = Vec::new();
    let mut i: usize = 0;
    while i < proposals.len()
        invariant
            i <= proposals@.len(),
            r@.len() == i,
            forall|k: int| 0 <= k < i ==> #[trigger] r@[k] == reviewed(proposals@[k], result, user_id, now),
        decreases proposals.len() - i,
    {
        let h = proposals[i];
        r.push(ProposalHeader { changed_at: now, changed_by: user_id, result_id: Some(result), status_check_id: CheckStatus::Reviewed, ..h });
        i += 1;
    }
    r
}

/// An organization of a proposal: its id in the monolith and its uuid here.
#[derive(Clone, Copy, Debug, PartialEq, Eq, Structural)]
pub struct OrganizationRef {
    pub supplier_id: i32,
    pub supplier_uuid: u128,
}

/// An organization as the monolith names it.
pub struct FoundOrganization {
    pub id: i32,
    pub text: String,
}

/// The name of an organization, by its uuid here.
pub struct OrganizationName {
    pub supplier_uuid: u128,
    pub text: String,
}

/// The uuid that an id maps to: that of the last organization with the id.
pub open spec fn uuid_of_id(refs: Seq<OrganizationRef>, id: i32) -> Option<u128>
    decreases refs.len(),
{
    if refs.len() == 0 {
        None
    } else if refs.last().supplier_id == id {
        Some(refs.last().supplier_uuid)
    } else {
        uuid_of_id(refs.drop_last(), id)
    }
}

/// Some organization of the list has the id.
pub open spec fn has_id(found: Seq<FoundOrganization>, id: i32) -> bool {
    exists|j: int| 0 <= j < found.len() && (#[trigger] found[j]).id == id
}

/// The organizations named by the monolith, each id kept at its first place.
pub open spec fn first_found(found: Seq<FoundOrganization>) -> Seq<FoundOrganization>
    decreases found.len(),
{
    if found.len() == 0 {
        found
    } else if has_id(found.drop_last(), found.last().id) {
        first_found(found.drop_last())
    } else {
        first_found(found.drop_last()).push(found.last())
    }
}

/// The names of the organizations, in the order the monolith gave them:
/// the first name of each id that an organization of the proposals has.
pub open spec fn names_of(refs: Seq<OrganizationRef>, found: Seq<FoundOrganization>) -> Seq<(u128, Seq<char>)>
    decreases found.len(),
{
    if found.len() == 0 {
        Seq::empty()
    } else {
        let rest = names_of(refs, found.drop_last());
        let f = found.last();
        if !has_id(found.drop_last(), f.id) && uuid_of_id(refs, f.id) is Some {
            rest.push((uuid_of_id(refs, f.id)->0, f.text@))
        } else {
            rest
        }
    }
}

/// An id of an organization of the proposals, at its first place.
pub open spec fn first_id_at(refs: Seq<OrganizationRef>, i: int) -> bool {
    forall|k: int| 0 <= k < i ==> (#[trigger] refs[k]).supplier_id != refs[i].supplier_id
}

/// The ids of the organizations of the proposals that the monolith did not
/// name, each once, in the order of the proposals.
pub open spec fn missing_ids(refs: Seq<OrganizationRef>, found: Seq<FoundOrganization>) -> Seq<i32>
    decreases refs.len(),
{
    if refs.len() == 0 {
        Seq::empty()
    } else {
        let rest = missing_ids(refs.drop_last(), found);
        let i = refs.len() - 1;
        if first_id_at(refs, i) && !has_id(found, refs[i].supplier_id) {
            rest.push(refs[i].supplier_id)
        } else {
            rest
        }
    }
}

/// The last position before `i` whose id is `id`, searching down from `i`.
fn find_uuid(refs: &Vec<OrganizationRef>, id: i32) -> (r: Option<u128>)
    ensures
        r == uuid_of_id(refs@, id),
{
    let mut i = refs.len();
    proof {
        assert(refs@.take(i as int) =~= refs@);
    }
    while i > 0
        invariant
            i <= refs@.len(),
            uuid_of_id(refs@, id) == uuid_of_id(refs@.take(i as int), id),
        decreases i,
    {
        proof {
            assert(refs@.take(i as int).drop_last() =~= refs@.take(i - 1));
        }
        if refs[i - 1].supplier_id == id {
            return Some(refs[i - 1].supplier_uuid);
        }
        i = i - 1;
    }
    None
}

/// Whether an organization among the first `n` of the list has the id.
fn found_before(found: &Vec<FoundOrganization>, n: usize, id: i32) -> (b: bool)
    requires
        n <= found@.len(),
    ensures
        b == has_id(found@.take(n as int), id),
{
    let mut j: usize = 0;
    while j < n
        invariant
            j <= n <= found@.len(),
            forall|k: int| 0 <= k < j ==> (#[trigger] found@[k]).id != id,
        decreases n - j,
    {
        if found[j].id == id {
            proof {
                assert(found@.take(n as int)[j as int].id == id);
            }
            return true;
        }
        j += 1;
    }
    proof {
        assert forall|k: int| 0 <= k < n implies (#[trigger] found@.take(n as int)[k]).id != id by {
            assert(found@.take(n as int)[k] == found@[k]);
        }
    }
    false
}

/// The views of a list of names.
pub open spec fn names_view(v: Seq<OrganizationName>) -> Seq<(u128, Seq<char>)> {
    v.map_values(|n: OrganizationName| (n.supplier_uuid, n.text@))
}

/// The names of the organizations of the proposals, when the monolith named
/// each of them; the ids it did not name otherwise.
pub fn match_organizations(refs: &Vec<OrganizationRef>, found: &Vec<FoundOrganization>) -> (r: Result<
    Vec<OrganizationName>,
    Vec<i32>,
>)
    ensures
        missing_ids(refs@, found@).len() == 0 <==> r is Ok,
        r matches Ok(names) ==> names_view(names@) == names_of(refs@, found@),
        r matches Err(ids) ==> ids@ == missing_ids(refs@, found@),
{
    let mut missing: Vec<i32> = Vec::new();
    let mut i: usize = 0;
    while i < refs.len()
        invariant
            i <= refs@.len(),
            missing@ == missing_ids(refs@.take(i as int), found@),
        decreases refs.len() - i,
    {
        let id = refs[i].supplier_id;
        let mut k: usize = 0;
        let mut first = true;
        while k < i
            invariant
                k <= i < refs@.len(),
                id == refs@[i as int].supplier_id,
                first == forall|q: int| 0 <= q < k ==> (#[trigger] refs@[q]).supplier_id != id,
            decreases i - k,
        {
            if refs[k].supplier_id == id {
                first = false;
            }
            k += 1;
        }
        let named = found_before(found, found.len(), id);
        proof {
            let t = refs@.take(i + 1);
            assert(t.drop_last() =~= refs@.take(i as int));
            assert(found@.take(found@.len() as int) =~= found@);
            assert(first_id_at(t, i as int) == first) by {
                assert forall|q: int| 0 <= q < i implies t[q] == refs@[q] by {}
                if !first {
                    let q = choose|q: int| 0 <= q < i && (#[trigger] refs@[q]).supplier_id == id;
                    assert(t[q].supplier_id == id);
                }
            }
        }
        if first && !named {
            missing.push(id);
        }
        i += 1;
    }
    proof {
        assert(refs@.take(refs@.len() as int) =~= refs@);
    }
    if missing.len() > 0 {
        return Err(missing);
    }
    let mut names: Vec<OrganizationName> = Vec::new();
    let mut j: usize = 0;
    while j < found.len()
        invariant
            j <= found@.len(),
            names_view(names@) == names_of(refs@, found@.take(j as int)),
        decreases found.len() - j,
    {
        let f = &found[j];
        let earlier = found_before(found, j, f.id);
        let u = find_uuid(refs, f.id);
        proof {
            let t = found@.take(j + 1);
            assert(t.drop_last() =~= found@.take(j as int));
            assert(t.last() == found@[j as int]);
        }
        if !earlier {
            if let Some(uu) = u {
                let ghost before = names@;
                names.push(OrganizationName { supplier_uuid: uu, text: owned(f.text.as_str()) });
                proof {
                    assert(names_view(names@) =~= names_view(before).push((uu, found@[j as int].text@)));
                }
            }
        }
        j += 1;
    }
    proof {
        assert(found@.take(found@.len() as int) =~= found@);
    }
    Ok(names)
}

/// The text of the error that the monolith did not name organizations.
pub open spec fn missing_organizations_text(ids: Seq<i32>) -> Seq<char> {
    "В монолите не найдены организации ИД = "@ + join(decimals(ids.map_values(|i: i32| i as i64)), ", "@) + "."@
}

/// The error that the monolith did not name the organizations.
pub fn missing_organizations_error(ids: &Vec<i32>) -> (e: TcpError)
    ensures
        e matches TcpError::MonolithError(t) && t@ == missing_organizations_text(ids@),
{
    let mut s = String::new();
    let mut i: usize = 0;
    let ghost ids64 = ids@.map_values(|i: i32| i as i64);
    while i < ids.len()
        invariant
            i <= ids@.len(),
            ids64 == ids@.map_values(|i: i32| i as i64),
            s@ == join(decimals(ids64.take(i as int)), ", "@),
        decreases ids.len() - i,
    {
        let n = i32_to_string(ids[i]);
        proof {
            let d = decimals(ids64.take(i + 1));
            assert(d =~= decimals(ids64.take(i as int)).push(decimal(ids64[i as int] as int)));
            assert(d.drop_last() =~= decimals(ids64.take(i as int)));
        }
        if i > 0 {
            s.append(", ");
        }
        s.append(n.as_str());
        i += 1;
    }
    proof {
        assert(ids64.take(ids64.len() as int) =~= ids64);
    }
    let t = concat("В монолите не найдены организации ИД = ", s.as_str());
    TcpError::MonolithError(concat(t.as_str(), "."))
}

/// The name found for an organization: the last one given for its uuid.
pub open spec fn name_for(names: Seq<(u128, Seq<char>)>, supplier_uuid: u128) -> Option<Seq<char>>
    decreases names.len(),
{
    if names.len() == 0 {
        None
    } else if names.last().0 == supplier_uuid {
        Some(names.last().1)
    } else {
        name_for(names.drop_last(), supplier_uuid)
    }
}

/// "Proposal <id> from <organization> can be applied / cannot be
/// considered in the price analysis", a success naming the proposal.
pub open spec fn pricing_message(id: i64, org: Seq<char>, applied: bool) -> MessageView {
    MessageView {
        item_list: seq![ParamItemView { id: decimal(id as int), uuid: None }],
        ..plain(
            MessageKind::Success,
            "ТКП "@ + decimal(id as int) + " от "@ + org + " "@ + (if applied {
                "можно применить"@
            } else {
                "нельзя учесть"@
            }) + " при АЦ"@,
        )
    }
}

/// Every proposal's organization has a name.
pub open spec fn all_named(updated: Seq<ProposalHeader>, names: Seq<(u128, Seq<char>)>) -> bool {
    forall|i: int| 0 <= i < updated.len() ==> name_for(names, (#[trigger] updated[i]).supplier_uuid) is Some
}

/// The name found for an organization, as `name_for` states it.
fn find_name(names: &Vec<OrganizationName>, supplier_uuid: u128) -> (r: Option<String>)
    ensures
        match name_for(names_view(names@), supplier_uuid) {
            Some(t) => r matches Some(s) && s@ == t,
            None => r is None,
        },
{
    let mut i = names.len();
    proof {
        assert(names_view(names@).take(i as int) =~= names_view(names@));
    }
    while i > 0
        invariant
            i <= names@.len(),
            name_for(names_view(names@), supplier_uuid) == name_for(names_view(names@).take(i as int), supplier_uuid),
        decreases i,
    {
        proof {
            assert(names_view(names@).take(i as int).drop_last() =~= names_view(names@).take(i - 1));
        }
        if names[i - 1].supplier_uuid == supplier_uuid {
            return Some(owned(names[i - 1].text.as_str()));
        }
        i = i - 1;
    }
    None
}

/// The messages of the review, one per proposal in order; fails when an
/// organization of a proposal has no name.
pub fn pricing_messages(updated: &Vec<ProposalHeader>, names: &Vec<OrganizationName>, applied: bool) -> (r: Result<
    Messages,
    TcpError,
>)
    ensures
        all_named(updated@, names_view(names@)) <==> r is Ok,
        r matches Ok(m) ==> m.wf() && m@.messages.len() == updated@.len() && forall|i: int|
            0 <= i < updated@.len() ==> #[trigger] m@.messages[i] == pricing_message(
                updated@[i].id,
                name_for(names_view(names@), updated@[i].supplier_uuid)->0,
                applied,
            ),
        r matches Err(e) ==> e matches TcpError::RecordNotFound(id, table) && id@
            == "organization (request_partner.uuid) из монолита"@ && table@ == "request_partner"@,
{
    let mut messages = Messages::new();
    let mut i: usize = 0;
    while i < updated.len()
        invariant
            i <= updated@.len(),
            messages.wf(),
            messages@.messages.len() == i,
            forall|k: int| 0 <= k < i ==> name_for(names_view(names@), (#[trigger] updated@[k]).supplier_uuid) is Some,
            forall|k: int|
                0 <= k < i ==> #[trigger] messages@.messages[k] == pricing_message(
                    updated@[k].id,
                    name_for(names_view(names@), updated@[k].supplier_uuid)->0,
                    applied,
                ),
        decreases updated.len() - i,
    {
        let h = updated[i];
        let org = match find_name(names, h.supplier_uuid) {
            Some(t) => t,
            None => {
                proof {
                    assert(!all_named(updated@, names_view(names@)));
                }
                return Err(
                    TcpError::RecordNotFound(
                        owned("organization (request_partner.uuid) из монолита"),
                        owned("request_partner"),
                    ),
                );
            },
        };
        let allowed = if applied {
            "можно применить"
        } else {
            "нельзя учесть"
        };
        let n = i64_to_string(h.id);
        let t1 = concat("ТКП ", n.as_str());
        let t2 = concat(t1.as_str(), " от ");
        let t3 = concat(t2.as_str(), org.as_str());
        let t4 = concat(t3.as_str(), " ");
        let t5 = concat(t4.as_str(), allowed);
        let text = concat(t5.as_str(), " при АЦ");
        let m = Message::success(text).with_param_item(ParamItem::from_id(h.id));
        messages.add(m);
        i += 1;
    }
    Ok(messages)
}

} // verus!
