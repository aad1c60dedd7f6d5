//! Structured reads of current facts.

use crate::bench::fixture::{source_entity, source_id, target_entity, target_id};
use vstd::prelude::*;

verus! {

/// The pair of entities that is read: the one in the middle.
pub fn selected_pair(facts: usize) -> (pair: (u128, u128))
    ensures
        pair == (source_entity((facts / 2) as usize), target_entity((facts / 2) as usize)),
{
    let selected: usize = facts / 2;
    (source_id(selected), target_id(selected))
}

/// Why a structured read came out wrong.
#[derive(Clone, Copy, Debug, PartialEq, Eq, Structural)]
pub enum ReaderError {
    /// The entity read.
    EntityMismatch,
    /// The reverse-reference read.
    RefMismatch,
}

impl ReaderError {
    /// Render this error for a caller.
    pub fn message(&self) -> (text: &'static str)
        ensures
            text@ == match *self {
                ReaderError::EntityMismatch => "typed entity read mismatch"@,
                ReaderError::RefMismatch => "typed reverse-reference read mismatch"@,
            },
    {
        match self {
            ReaderError::EntityMismatch => "typed entity read mismatch",
            ReaderError::RefMismatch => "typed reverse-reference read mismatch",
        }
    }
}

/// Accept an entity read: exactly one row, whose value refers to the target.
/// `rows` holds the entity that each row's value refers to, if any.
pub fn check_entity_rows(rows: &Vec<Option<u128>>, target: u128) -> (result: Result<
    (),
    ReaderError,
>)
    ensures
        result == if rows@ == seq![Some(target)] {
            Ok::<(), ReaderError>(())
        } else {
            Err(ReaderError::EntityMismatch)
        },
{
    if rows.len() == 1 {
        if let Some(found) = rows[0] {
            if found == target {
                assert(rows@ =~= seq![Some(target)]);
                return Ok(());
            }
        }
        assert(rows@[0] != Some(target));
    }
    Err(ReaderError::EntityMismatch)
}

/// Accept a reverse-reference read: exactly the source.
pub fn check_ref_rows(rows: &Vec<u128>, source: u128) -> (result: Result<(), ReaderError>)
    ensures
        result == if rows@ == seq![source] {
            Ok::<(), ReaderError>(())
        } else {
            Err(ReaderError::RefMismatch)
        },
{
    if rows.len() == 1 && rows[0] == source {
        assert(rows@ =~= seq![source]);
        return Ok(());
    }
    Err(ReaderError::RefMismatch)
}

} // verus!
