//! The decisions behind the interactive console: what a command line means,
//! whether a destructive operation was confirmed, and the defensive parsers
//! for optional edits. Reading a line is the surrounding program's business;
//! every function here takes the line already read and trimmed.

use vstd::prelude::*;
use vstd::string::{StrSliceExecFns, StringExecFns};

use crate::chars::{
    dec_value, digits_part, eq_ignore_ascii_case, eq_ignore_case, parse_u32, parses_as_u32,
};

verus! {

/// The storage layer's bound on one field's size, in bytes.
pub const MAX_DATA_LENGTH: usize = 100;

/// A command of the database-management console.
#[derive(Debug, Clone, Copy, PartialEq, Eq, Structural)]
pub enum DbCommand {
    Insert,
    Lookup,
    Delete,
    Count,
    Clear,
    Back,
    Empty,
    Unknown,
}

/// What a management-console line means; command words are matched without
/// regard to ASCII case, and `exit` is a synonym for `back`.
pub open spec fn db_command_spec(s: Seq<char>) -> DbCommand {
    if s.len() == 0 {
        DbCommand::Empty
    } else if eq_ignore_case(s, "back"@) || eq_ignore_case(s, "exit"@) {
        DbCommand::Back
    } else if eq_ignore_case(s, "insert"@) {
        DbCommand::Insert
    } else if eq_ignore_case(s, "lookup"@) {
        DbCommand::Lookup
    } else if eq_ignore_case(s, "delete"@) {
        DbCommand::Delete
    } else if eq_ignore_case(s, "count"@) {
        DbCommand::Count
    } else if eq_ignore_case(s, "clear"@) {
        DbCommand::Clear
    } else {
        DbCommand::Unknown
    }
}

pub fn parse_db_command(input: &str) -> (c: DbCommand)
    ensures
        c == db_command_spec(input@),
{
    if input.is_empty() {
        DbCommand::Empty
    } else if eq_ignore_ascii_case(input, "back") || eq_ignore_ascii_case(input, "exit") {
        DbCommand::Back
    } else if eq_ignore_ascii_case(input, "insert") {
        DbCommand::Insert
    } else if eq_ignore_ascii_case(input, "lookup") {
        DbCommand::Lookup
    } else if eq_ignore_ascii_case(input, "delete") {
        DbCommand::Delete
    } else if eq_ignore_ascii_case(input, "count") {
        DbCommand::Count
    } else if eq_ignore_ascii_case(input, "clear") {
        DbCommand::Clear
    } else {
        DbCommand::Unknown
    }
}

/// A command of the top-level management console.
#[derive(Debug, Clone, Copy, PartialEq, Eq, Structural)]
pub enum MainCommand {
    Start,
    Config,
    DbManage,
    Info,
    Exit,
    Empty,
    Unknown,
}

/// What a top-level console line means.
pub open spec fn main_command_spec(s: Seq<char>) -> MainCommand {
    if s.len() == 0 {
        MainCommand::Empty
    } else if eq_ignore_case(s, "start"@) {
        MainCommand::Start
    } else if eq_ignore_case(s, "config"@) {
        MainCommand::Config
    } else if eq_ignore_case(s, "db-manage"@) {
        MainCommand::DbManage
    } else if eq_ignore_case(s, "info"@) {
        MainCommand::Info
    } else if eq_ignore_case(s, "exit"@) {
        MainCommand::Exit
    } else {
        MainCommand::Unknown
    }
}

pub fn parse_main_command(input: &str) -> (c: MainCommand)
    ensures
        c == main_command_spec(input@),
{
    if input.is_empty() {
        MainCommand::Empty
    } else if eq_ignore_ascii_case(input, "start") {
        MainCommand::Start
    } else if eq_ignore_ascii_case(input, "config") {
        MainCommand::Config
    } else if eq_ignore_ascii_case(input, "db-manage") {
        MainCommand::DbManage
    } else if eq_ignore_ascii_case(input, "info") {
        MainCommand::Info
    } else if eq_ignore_ascii_case(input, "exit") {
        MainCommand::Exit
    } else {
        MainCommand::Unknown
    }
}

/// Whether the operator confirmed a destructive operation: exactly the word
/// `yes`, in any ASCII case.
pub fn confirmation_accepted(input: &str) -> (r: bool)
    ensures
        r == eq_ignore_case(input@, "yes"@),
{
    eq_ignore_ascii_case(input, "yes")
}

/// An optional edit: an empty line keeps the current value, anything else is
/// the new value.
pub fn read_optional_string(input: String) -> (r: Option<String>)
    ensures
        input@.len() == 0 ==> r is None,
        input@.len() > 0 ==> r == Some(input),
{
    if input.as_str().is_empty() {
        None
    } else {
        Some(input)
    }
}

/// An optional positive-integer edit: an empty line keeps the current value;
/// a decimal number above zero is the new value; zero, or anything that does
/// not parse as a `u32`, is rejected with a message.
pub fn read_u32(input: &str) -> (r: Result<Option<u32>, String>)
    ensures
        input@.len() == 0 ==> r == Ok::<Option<u32>, String>(None),
        input@.len() > 0 && parses_as_u32(input@) ==> (if dec_value(digits_part(input@)) > 0 {
            r == Ok::<Option<u32>, String>(Some(dec_value(digits_part(input@)) as u32))
        } else {
            r is Err
        }),
        input@.len() > 0 && !parses_as_u32(input@) ==> r is Err,
{
    if input.is_empty() {
        return Ok(None);
    }
    match parse_u32(input) {
        Some(n) => {
            if n == 0 {
                Err("the value must be greater than zero".to_owned())
            } else {
                Ok(Some(n))
            }
        },
        None => {
            let mut msg: String = "invalid input '".to_owned();
            msg.append(input);
            msg.append("': enter a positive integer");
            Err(msg)
        },
    }
}

/// The console's defensive checks before an insert: both values nonempty and
/// within the storage field bound, measured in bytes.
pub fn mapping_input_ok(uid: &str, phone_number: &str) -> (r: bool)
    ensures
        r == (uid@.len() > 0 && phone_number@.len() > 0 && uid.len() <= MAX_DATA_LENGTH
            && phone_number.len() <= MAX_DATA_LENGTH),
{
    !uid.is_empty() && !phone_number.is_empty() && uid.len() <= MAX_DATA_LENGTH
        && phone_number.len() <= MAX_DATA_LENGTH
}

} // verus!
