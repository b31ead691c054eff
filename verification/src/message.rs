//! Chat messages of the per-issue discussion groups.

use vstd::prelude::*;

verus! {

/// One chat message. It belongs to exactly one group and does not change
/// once it is made.
#[derive(Debug, PartialEq, Eq)]
pub struct Message {
    pub id: String,
    pub group_id: String,
    pub sender_id: String,
    pub sender_name: String,
    pub text: String,
    pub created_at: u64,
}

impl Clone for Message {
    fn clone(&self) -> (copy: Self)
        ensures
            copy == *self,
    {
        Message {
            id: self.id.clone(),
            group_id: self.group_id.clone(),
            sender_id: self.sender_id.clone(),
            sender_name: self.sender_name.clone(),
            text: self.text.clone(),
            created_at: self.created_at,
        }
    }
}

impl Message {
    /// The message belongs to the group with this identifier.
    pub open spec fn in_group(self, group_id: Seq<char>) -> bool {
        self.group_id@ == group_id
    }

    pub fn belongs_to(&self, group_id: &String) -> (yes: bool)
        ensures
            yes == self.in_group(group_id@),
    {
        self.group_id == *group_id
    }
}

} // verus!
