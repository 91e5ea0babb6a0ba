//! Exporting a table of the user interface to a document: which sections
//! can be exported, and the errors of an export.
use vstd::prelude::*;

use crate::messages::{plain, Message, MessageKind, Messages};
use crate::model::TcpError;
use crate::text::{concat, concat3, owned};

verus! {

/// A section of the user interface, as an export names it.
pub enum ExportSection {
    RequestList,
    RequestItem,
    /// Any other section, by its name.
    Other(String),
}

/// The kind of the records of an exported table.
#[derive(Clone, Copy, Debug, PartialEq, Eq, Structural)]
pub enum EntityKind {
    RequestList,
    RequestItem,
}

/// The kind of records a section exports: the request list and the request
/// positions can be exported, no other section can.
pub fn export_entity_kind(section: &ExportSection) -> (r: Result<EntityKind, TcpError>)
    ensures
        match section {
            ExportSection::RequestList => r == Ok::<EntityKind, TcpError>(EntityKind::RequestList),
            ExportSection::RequestItem => r == Ok::<EntityKind, TcpError>(EntityKind::RequestItem),
            ExportSection::Other(name) => r matches Err(TcpError::Section(t)) && t@ == "Секция "@ + name@
                + " не имеет возможности экспорта таблицы"@,
        },
{
    match section {
        ExportSection::RequestList => Ok(EntityKind::RequestList),
        ExportSection::RequestItem => Ok(EntityKind::RequestItem),
        ExportSection::Other(name) => Err(
            TcpError::Section(concat3("Секция ", name.as_str(), " не имеет возможности экспорта таблицы")),
        ),
    }
}

/// An export of no records is an error that says no data was found.
pub fn check_export_data(count: usize) -> (r: Result<(), TcpError>)
    ensures
        count > 0 <==> r is Ok,
        r matches Err(e) ==> e matches TcpError::Business(m) && m.wf() && m@.messages == seq![
            plain(MessageKind::Error, "По данному запросу данных не найдено"@),
        ],
{
    if count == 0 {
        let mut messages = Messages::new();
        messages.add(Message::error(owned("По данному запросу данных не найдено")));
        proof {
            assert(Seq::empty().push(plain(MessageKind::Error, "По данному запросу данных не найдено"@)) =~= seq![
                plain(MessageKind::Error, "По данному запросу данных не найдено"@),
            ]);
        }
        return Err(TcpError::Business(messages));
    }
    Ok(())
}

/// The content of the exported document: the document service's error (by
/// its text) and a document without content are export errors.
pub fn export_document(document: Result<Option<Vec<u8>>, String>) -> (r: Result<Vec<u8>, TcpError>)
    ensures
        match document {
            Ok(Some(buf)) => r matches Ok(b) && b@ == buf@,
            Ok(None) => r matches Err(TcpError::Export(t)) && t@ == "Отсутствует содержимое документа"@,
            Err(e) => r matches Err(TcpError::Export(t)) && t@ == "Ошибка формирования документа из сервиса print-doc: "@
                + e@,
        },
{
    match document {
        Ok(Some(buf)) => Ok(buf),
        Ok(None) => Err(TcpError::Export(owned("Отсутствует содержимое документа"))),
        Err(e) => Err(TcpError::Export(concat("Ошибка формирования документа из сервиса print-doc: ", e.as_str()))),
    }
}

/// Where a column of the exported request positions comes from.
#[derive(Clone, Copy, Debug, PartialEq, Eq, Structural)]
pub enum ItemField {
    /// The plan of the request.
    PlanId,
    /// The currency of the request.
    CurrencyId,
    /// The position itself.
    Item,
}

/// The source of a column of the exported request positions: the plan and
/// the currency come from the request, the rest from the position.
pub fn request_item_field(field: &str) -> (r: ItemField)
    ensures
        r == if field@ == "plan_id"@ {
            ItemField::PlanId
        } else if field@ == "currency_id"@ {
            ItemField::CurrencyId
        } else {
            ItemField::Item
        },
{
    let f = owned(field);
    if f == owned("plan_id") {
        ItemField::PlanId
    } else if f == owned("currency_id") {
        ItemField::CurrencyId
    } else {
        ItemField::Item
    }
}

} // verus!
