//! The questions of organizations with their attachments
//! ("/pre_request/organization_question/").
use vstd::prelude::*;

use crate::merge::{claim_records, claimed_at};
use crate::messages::Messages;
use crate::model::Attachment;

verus! {

/// The organizations (and their requests) whose questions are asked for.
pub struct PreOrganizationQuestionReq {
    pub item_list: Vec<OrganizationQuestionItemReq>,
}

/// An organization of a request.
#[derive(Clone, Copy, Debug, PartialEq, Eq, Structural)]
pub struct OrganizationQuestionItemReq {
    pub supplier_id: i32,
    pub request_uuid: u128,
}

/// A question of an organization with its answer, as shown.
pub struct OrganizationQuestionRep {
    pub uuid: u128,
    pub question_text: Option<String>,
    pub question_created_at: Option<i64>,
    pub answer_question_text: Option<String>,
    pub answer_created_at: Option<i64>,
    pub answer_published_at: Option<i64>,
}

/// The attachments of a question, as the monolith keeps them under the
/// question's uuid.
pub struct QuestionHierarchy {
    pub uuid: u128,
    pub item_list: Vec<Attachment>,
}

/// A question with its attachments.
pub struct OrganizationQuestionResponseItem {
    pub organization_question: OrganizationQuestionRep,
    pub attachment_list: Vec<Attachment>,
}

/// The questions with their attachments.
pub struct PreOrganizationQuestionResponseData {
    pub item_list: Vec<OrganizationQuestionResponseItem>,
}

/// The uuids of the questions, as entries that name them.
pub open spec fn question_uuids(qs: Seq<OrganizationQuestionRep>) -> Seq<Option<u128>> {
    qs.map_values(|q: OrganizationQuestionRep| Some(q.uuid))
}

/// The uuids of the attachment hierarchies.
pub open spec fn hierarchy_uuids(hs: Seq<QuestionHierarchy>) -> Seq<u128> {
    hs.map_values(|h: QuestionHierarchy| h.uuid)
}

/// The attachments shown with the question at `i`: those of the last
/// hierarchy with its uuid, for the first question with that uuid; none
/// otherwise.
pub open spec fn question_attachments_at(
    qs: Seq<OrganizationQuestionRep>,
    hs: Seq<QuestionHierarchy>,
    i: int,
    attachments: Seq<Attachment>,
) -> bool {
    exists|c: Option<usize>|
        #[trigger] claimed_at(c, question_uuids(qs), hierarchy_uuids(hs), i) && match c {
            Some(j) => attachments == hs[j as int].item_list@,
            None => attachments.len() == 0,
        }
}

/// The questions read, each with the attachments that the monolith keeps
/// for it, and the monolith's messages.
pub fn process_pre_organization_question(
    questions: Vec<OrganizationQuestionRep>,
    hierarchy_list: Vec<QuestionHierarchy>,
    monolith_messages: Messages,
) -> (r: (PreOrganizationQuestionResponseData, Messages))
    ensures
        r.1@ == monolith_messages@,
        r.0.item_list@.len() == questions@.len(),
        forall|i: int|
            0 <= i < questions@.len() ==> (#[trigger] r.0.item_list@[i]).organization_question == questions@[i]
                && question_attachments_at(questions@, hierarchy_list@, i, r.0.item_list@[i].attachment_list@),
{
    let ghost qs = questions@;
    let ghost hs = hierarchy_list@;
    let mut w: Vec<Option<u128>> = Vec::new();
    let mut i: usize = 0;
    while i < questions.len()
        invariant
            i <= qs.len(),
            qs == questions@,
            w@ == question_uuids(qs.take(i as int)),
        decreases questions.len() - i,
    {
        w.push(Some(questions[i].uuid));
        proof {
            assert(question_uuids(qs.take(i + 1)) =~= question_uuids(qs.take(i as int)).push(Some(qs[i as int].uuid)));
        }
        i += 1;
    }
    let mut olds: Vec<u128> = Vec::new();
    let mut k: usize = 0;
    while k < hierarchy_list.len()
        invariant
            k <= hs.len(),
            hs == hierarchy_list@,
            olds@ == hierarchy_uuids(hs.take(k as int)),
        decreases hierarchy_list.len() - k,
    {
        olds.push(hierarchy_list[k].uuid);
        proof {
            assert(hierarchy_uuids(hs.take(k + 1)) =~= hierarchy_uuids(hs.take(k as int)).push(hs[k as int].uuid));
        }
        k += 1;
    }
    proof {
        assert(qs.take(qs.len() as int) =~= qs);
        assert(hs.take(hs.len() as int) =~= hs);
    }
    let (claims, _) = claim_records(&w, &olds);
    // move the attachment lists out, each into its slot
    let mut slots: Vec<Option<Vec<Attachment>>> = Vec::new();
    for h in it: hierarchy_list.into_iter()
        invariant
            it.seq() == hs,
            slots@.len() == it.index(),
            forall|j: int| 0 <= j < it.index() ==> #[trigger] slots@[j] == Some(hs[j].item_list),
    {
        slots.push(Some(h.item_list));
    }
    let mut item_list: Vec<OrganizationQuestionResponseItem> = Vec::new();
    let n_claims = claims.len();
    for q in it: questions.into_iter()
        invariant
            it.seq() == qs,
            claims@.len() == qs.len(),
            n_claims == claims@.len(),
            forall|p: int| 0 <= p < qs.len() ==> claimed_at(#[trigger] claims@[p], question_uuids(qs), hierarchy_uuids(hs), p),
            slots@.len() == hs.len(),
            forall|p: int|
                it.index() <= p < qs.len() ==> (#[trigger] claims@[p] matches Some(j) ==> slots@[j as int] == Some(
                    hs[j as int].item_list,
                )),
            item_list@.len() == it.index(),
            forall|p: int|
                0 <= p < it.index() ==> (#[trigger] item_list@[p]).organization_question == qs[p]
                    && question_attachments_at(qs, hs, p, item_list@[p].attachment_list@),
    {
        let p = item_list.len();
        proof {
            assert(p < n_claims);
            assert(claimed_at(claims@[p as int], question_uuids(qs), hierarchy_uuids(hs), p as int));
        }
        let attachment_list = match claims[p] {
            Some(j) => {
                proof {
                    assert(j < hs.len());
                }
                let mut taken: Option<Vec<Attachment>> = None;
                let ghost before = slots@;
                std::mem::swap(&mut slots[j], &mut taken);
                proof {
                    assert(slots@ == before.update(j as int, None));
                    // a slot is taken by one question only
                    assert forall|p2: int| p + 1 <= p2 < qs.len() implies (#[trigger] claims@[p2] matches Some(j2) ==> slots@[j2 as int]
                        == Some(hs[j2 as int].item_list)) by {
                        if claims@[p2] is Some {
                            let j2 = claims@[p2]->0;
                            assert(claimed_at(claims@[p2], question_uuids(qs), hierarchy_uuids(hs), p2));
                            assert(question_uuids(qs)[p2] == Some(hierarchy_uuids(hs)[j2 as int]));
                            if j2 == j {
                                assert(question_uuids(qs)[p as int] == Some(hierarchy_uuids(hs)[j as int]));
                                assert(crate::merge::named_before(question_uuids(qs), p2, hierarchy_uuids(hs)[j as int]));
                            }
                        }
                    }
                }
                match taken {
                    Some(v) => v,
                    None => Vec::new(),
                }
            },
            None => Vec::new(),
        };
        proof {
            assert(question_attachments_at(qs, hs, p as int, attachment_list@));
        }
        item_list.push(OrganizationQuestionResponseItem { organization_question: q, attachment_list });
    }
    (PreOrganizationQuestionResponseData { item_list }, monolith_messages)
}

} // verus!
