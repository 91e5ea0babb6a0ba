//! The reference books of purchasing subjects (in groups) and of the
//! organizations that supply them: the records that saving writes, and the
//! messages of saving and removing.
use vstd::prelude::*;

use crate::create_request::is_v4;
use crate::messages::{plain, Message, MessageKind, MessageView};
use crate::outside::new_uuid;
use crate::text::owned;

verus! {

/// A purchasing subject, or a group of them (a subject has a parent group).
pub struct RequestSubjectPurchased {
    pub uuid: u128,
    pub parent_uuid: Option<u128>,
    /// 1 for a group, 2 for a subject.
    pub hierarchy_id: i16,
    /// The group: the record itself for a group, its parent for a subject.
    pub hierarchy_uuid: u128,
    pub is_removed: bool,
    pub contract_subject_purchase_text: String,
    pub created_by: i32,
    pub created_at: i64,
    pub changed_by: i32,
    pub changed_at: i64,
}

/// The record that saving a group (no parent) or a subject writes: the
/// given uuid or a new one, not removed, by the user at the moment.
pub open spec fn subject_record(
    r: RequestSubjectPurchased,
    uuid: Option<u128>,
    parent_uuid: Option<u128>,
    text: Seq<char>,
    user_id: i32,
    now: i64,
) -> bool {
    &&& match uuid {
        Some(u) => r.uuid == u,
        None => is_v4(r.uuid),
    }
    &&& r.parent_uuid == parent_uuid
    &&& r.hierarchy_id == (if parent_uuid is None {
        1i16
    } else {
        2i16
    })
    &&& r.hierarchy_uuid == match parent_uuid {
        Some(p) => p,
        None => r.uuid,
    }
    &&& !r.is_removed
    &&& r.contract_subject_purchase_text@ == text
    &&& r.created_by == user_id && r.created_at == now
    &&& r.changed_by == user_id && r.changed_at == now
}

/// The record to save for a group (no parent) or a subject of a group.
pub fn purchasing_subject_record(
    uuid: Option<u128>,
    parent_uuid: Option<u128>,
    text: String,
    user_id: i32,
    now: i64,
) -> (r: RequestSubjectPurchased)
    ensures
        subject_record(r, uuid, parent_uuid, text@, user_id, now),
{
    let uuid = match uuid {
        Some(u) => u,
        None => new_uuid(),
    };
    let hierarchy_id: i16 = if parent_uuid.is_none() {
        1
    } else {
        2
    };
    let hierarchy_uuid = match parent_uuid {
        Some(p) => p,
        None => uuid,
    };
    RequestSubjectPurchased {
        uuid,
        parent_uuid,
        hierarchy_id,
        hierarchy_uuid,
        is_removed: false,
        contract_subject_purchase_text: text,
        created_by: user_id,
        created_at: now,
        changed_by: user_id,
        changed_at: now,
    }
}

/// The message of saving a group (no parent) or a subject: created when the
/// saved record was created at its last change, changed otherwise, and an
/// error when nothing was saved.
pub open spec fn upsert_message(is_group: bool, saved: Option<(i64, i64)>) -> MessageView {
    match saved {
        None => plain(
            MessageKind::Error,
            if is_group {
                "Ошибка при создании новой группы Предметов закупки"@
            } else {
                "Ошибка при создании нового Предмета закупки"@
            },
        ),
        Some((created_at, changed_at)) => plain(
            MessageKind::Success,
            if created_at == changed_at {
                if is_group {
                    "Новая группа Предметов закупки создана"@
                } else {
                    "Новый Предмет закупки создан"@
                }
            } else {
                if is_group {
                    "Группа Предметов закупки изменена"@
                } else {
                    "Предмет закупки изменен"@
                }
            },
        ),
    }
}

/// The message of saving, from the moments of creation and last change of
/// the first record saved, if any.
pub fn upsert_purchasing_subject_message(parent_uuid: Option<u128>, saved: Option<(i64, i64)>) -> (m: Message)
    ensures
        m@ == upsert_message(parent_uuid is None, saved),
{
    let is_group = parent_uuid.is_none();
    match saved {
        None => Message::error(
            owned(
                if is_group {
                    "Ошибка при создании новой группы Предметов закупки"
                } else {
                    "Ошибка при создании нового Предмета закупки"
                },
            ),
        ),
        Some((created_at, changed_at)) => Message::success(
            owned(
                if created_at == changed_at {
                    if is_group {
                        "Новая группа Предметов закупки создана"
                    } else {
                        "Новый Предмет закупки создан"
                    }
                } else {
                    if is_group {
                        "Группа Предметов закупки изменена"
                    } else {
                        "Предмет закупки изменен"
                    }
                },
            ),
        ),
    }
}

/// The message of removing an organization: an error when no record had
/// its uuid.
pub open spec fn organization_remove_message(rows: u64) -> MessageView {
    if rows == 0 {
        plain(MessageKind::Error, "Ошибка при удалении Организации"@)
    } else {
        plain(MessageKind::Success, "Организация удалена"@)
    }
}

/// The message of removing an organization, from the number of records changed.
pub fn organizations_remove(rows: u64) -> (m: Message)
    ensures
        m@ == organization_remove_message(rows),
{
    if rows == 0 {
        Message::error(owned("Ошибка при удалении Организации"))
    } else {
        Message::success(owned("Организация удалена"))
    }
}

/// Removing a group goes on to its organizations only when subjects of
/// the group were removed; the message says which happened.
pub fn purchasing_subject_group_remove(removed_subjects: &Vec<u128>) -> (r: (bool, Message))
    ensures
        r.0 == (removed_subjects@.len() > 0),
        r.1@ == if removed_subjects@.len() == 0 {
            plain(
                MessageKind::Error,
                "Ошибка базы данных: Не найденa желаемая Группa Предметов закупки при попытке удаления"@,
            )
        } else {
            plain(MessageKind::Success, "Группа Предметов закупки удалена"@)
        },
{
    if removed_subjects.len() == 0 {
        (
            false,
            Message::error(owned("Ошибка базы данных: Не найденa желаемая Группa Предметов закупки при попытке удаления")),
        )
    } else {
        (true, Message::success(owned("Группа Предметов закупки удалена")))
    }
}

/// Removing a subject goes on to its organizations only when the record
/// removed has a parent group (a group was chosen otherwise).
pub fn purchasing_subject_remove(removed_parent_uuid: Option<u128>) -> (r: (bool, Message))
    ensures
        r.0 == (removed_parent_uuid is Some),
        r.1@ == if removed_parent_uuid is None {
            plain(MessageKind::Error, "Выбрана группа Предметов закупки вместо Предмета закупки"@)
        } else {
            plain(MessageKind::Success, "Предмет закупки удален"@)
        },
{
    if removed_parent_uuid.is_none() {
        (false, Message::error(owned("Выбрана группа Предметов закупки вместо Предмета закупки")))
    } else {
        (true, Message::success(owned("Предмет закупки удален")))
    }
}

/// An organization that supplies a purchasing subject.
#[derive(Clone, Copy, Debug, PartialEq, Eq, Structural)]
pub struct PartnerSubjectPurchased {
    pub uuid: u128,
    pub uuid_subject: u128,
    pub supplier_id: i32,
    pub is_removed: bool,
    pub created_by: i32,
    pub created_at: i64,
    pub changed_by: i32,
    pub changed_at: i64,
}

/// An organization for a subject, as the user sends it.
#[derive(Clone, Copy, Debug, PartialEq, Eq, Structural)]
pub struct PartnerSubjectPurchasedRep {
    pub uuid_subject: Option<u128>,
    pub supplier_id: Option<i32>,
}

/// Adding an organization to a subject: both the subject and the
/// organization are required; the record is new, not removed, by the user
/// at the moment.
pub fn organizations_update(req: PartnerSubjectPurchasedRep, user_id: i32, now: i64) -> (r: Result<
    (PartnerSubjectPurchased, Message),
    Message,
>)
    ensures
        (req.uuid_subject is Some && req.supplier_id is Some) <==> r is Ok,
        r matches Ok((p, m)) ==> {
            &&& is_v4(p.uuid)
            &&& p.uuid_subject == req.uuid_subject->0
            &&& p.supplier_id == req.supplier_id->0
            &&& !p.is_removed
            &&& p.created_by == user_id && p.created_at == now
            &&& p.changed_by == user_id && p.changed_at == now
            &&& m@ == plain(MessageKind::Success, "Организация добавлена"@)
        },
        r matches Err(m) ==> m@ == plain(MessageKind::Error, "Обязательные поля не присутствуют в запросе"@),
{
    match (req.uuid_subject, req.supplier_id) {
        (Some(uuid_subject), Some(supplier_id)) => {
            let p = PartnerSubjectPurchased {
                uuid: new_uuid(),
                uuid_subject,
                supplier_id,
                is_removed: false,
                created_by: user_id,
                created_at: now,
                changed_by: user_id,
                changed_at: now,
            };
            Ok((p, Message::success(owned("Организация добавлена"))))
        },
        _ => Err(Message::error(owned("Обязательные поля не присутствуют в запросе"))),
    }
}

} // verus!
