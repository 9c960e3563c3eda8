//! The input of the `addPersonToSquad` mutation.
use crate::uid::{hyphenated_uuid, parse_uuid, parsed_uuid};
use vstd::prelude::*;

verus! {

/// The input of the `addPersonToSquad` mutation: the global ids of the person
/// and of the squad.
#[derive(Debug, Clone)]
pub struct AddPersonToSquadInput {
    pub person_id: String,
    pub squad_id: String,
}

/// The input with its ids read as UUIDs.
#[derive(Debug, Clone, Copy)]
pub struct ParsedAddPersonToSquadInput {
    pub person_uid: u128,
    pub squad_uid: u128,
}

impl ParsedAddPersonToSquadInput {
    /// Reads both ids as UUIDs; fails with "Invalid ID" when either is not one.
    pub fn try_from(value: AddPersonToSquadInput) -> (r: Result<ParsedAddPersonToSquadInput, String>)
        ensures
            r is Ok <==> parsed_uuid(value.person_id@) is Some && parsed_uuid(value.squad_id@) is Some,
            r matches Ok(p) ==> Some(p.person_uid) == parsed_uuid(value.person_id@) && Some(p.squad_uid)
                == parsed_uuid(value.squad_id@),
            r matches Err(message) ==> message@ == "Invalid ID"@,
            // the global ids that nodes display read back as their identities
            forall|p: u128, s: u128|
                #![trigger hyphenated_uuid(p), hyphenated_uuid(s)]
                hyphenated_uuid(p) == value.person_id@ && hyphenated_uuid(s) == value.squad_id@ ==> (r
                    matches Ok(parsed) && parsed.person_uid == p && parsed.squad_uid == s),
    {
        let person_uid = match parse_uuid(value.person_id.as_str()) {
            Ok(u) => u,
            Err(_) => {
                return Err(String::from_str("Invalid ID"));
            },
        };
        let squad_uid = match parse_uuid(value.squad_id.as_str()) {
            Ok(u) => u,
            Err(_) => {
                return Err(String::from_str("Invalid ID"));
            },
        };
        Ok(ParsedAddPersonToSquadInput { person_uid, squad_uid })
    }
}

} // verus!
