use vstd::prelude::*;

use crate::model::{role_text, Message, MessageModel, Role, StoreError};

verus! {

/// Whether a SQLSTATE code lies in class 23, integrity constraint
/// violation (foreign key, uniqueness, not-null, check).
pub open spec fn is_integrity_class(code: Seq<char>) -> bool {
    code.len() >= 2 && code[0] == '2' && code[1] == '3'
}

/// Classifies a storage failure by the SQLSTATE code the database reported,
/// where it reported one.
pub fn storage_error(sqlstate: &Option<String>) -> (r: StoreError)
    ensures
        (sqlstate matches Some(code) && is_integrity_class(code@)) ==> r == StoreError::ConstraintViolation,
        !(sqlstate matches Some(code) && is_integrity_class(code@)) ==> r == StoreError::BackendFailure,
{
    match sqlstate {
        Some(code) => {
            let s = code.as_str();
            if s.unicode_len() >= 2 && s.get_char(0) == '2' && s.get_char(1) == '3' {
                StoreError::ConstraintViolation
            } else {
                StoreError::BackendFailure
            }
        },
        None => StoreError::BackendFailure,
    }
}

/// The result of a rename or delete that touched `rows` rows: no row means
/// the chat does not exist.
pub fn expect_affected(rows: u64) -> (r: Result<(), StoreError>)
    ensures
        rows == 0 ==> r == Err::<(), StoreError>(StoreError::NotFound),
        rows > 0 ==> r is Ok,
{
    if rows == 0 {
        Err(StoreError::NotFound)
    } else {
        Ok(())
    }
}

/// A message read back from a `messages` row. A row whose role is neither
/// `user` nor `assistant` breaks the table's rules.
pub fn message_from_row(id: i32, created_on: i64, role: &String, content: String, chat_id: i32) -> (r:
    Result<Message, StoreError>)
    ensures
        (role@ == role_text(Role::User) || role@ == role_text(Role::Assistant)) <==> r is Ok,
        r is Err ==> r == Err::<Message, StoreError>(StoreError::ConstraintViolation),
        r matches Ok(m) ==> m@ == (MessageModel {
            id: Some(id),
            created_on: created_on,
            role: m@.role,
            content: content@,
            chat_id: chat_id,
        }) && role_text(m@.role) == role@,
{
    match Role::parse(role) {
        Some(parsed) => Ok(
            Message { id: Some(id), created_on, role: parsed, content, chat_id_relation: chat_id },
        ),
        None => Err(StoreError::ConstraintViolation),
    }
}

} // verus!
