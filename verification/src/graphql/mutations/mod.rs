//! The inputs of the mutations.
pub mod add_person_to_squad;
pub mod new_transaction;
