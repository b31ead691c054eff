//! The records of the service: users, issues and discussion groups.

use crate::analysis::{analyze, raw_boxes_spec, ClassifierOutcome, DetectionResult, INITIAL_REPORTS};
use crate::clock::now;
use crate::ids::{fresh_id, is_id_with_prefix};
use crate::message::Message;
use crate::seqs::{lemma_filter_drops, lemma_filter_keeps_no_duplicates, lemma_filter_take_next};
use vstd::prelude::*;

verus! {

/// A registered user.
#[derive(Clone, Debug, PartialEq, Eq)]
pub struct User {
    pub id: String,
    pub username: String,
    pub created_at: u64,
}

/// A reported issue. It does not change once it is made.
#[derive(Clone, Debug, PartialEq, Eq)]
pub struct Issue {
    pub id: String,
    pub title: String,
    pub description: String,
    /// Position, as two coordinates in units of a ten-millionth of a degree.
    pub coords: [i64; 2],
    pub image_url: Option<String>,
    pub category: String,
    pub ai: Option<DetectionResult>,
    pub reports: u32,
    pub created_at: u64,
}

/// What a reporter submits.
#[derive(Clone, Debug, PartialEq, Eq)]
pub struct NewIssue {
    pub title: String,
    pub description: String,
    pub coords: [i64; 2],
    pub image_url: Option<String>,
}

/// A discussion group around one issue. Its members stand in the order in
/// which they joined.
#[derive(Clone, Debug, PartialEq, Eq)]
pub struct Group {
    pub id: String,
    pub issue_id: String,
    pub name: String,
    pub members: Vec<String>,
    pub created_at: u64,
}

/// What a sender submits.
#[derive(Clone, Debug, PartialEq, Eq)]
pub struct NewMessage {
    pub sender_id: String,
    pub sender_name: String,
    pub text: String,
}

/// What the identifier of a user begins with.
pub const USER_PREFIX: &'static str = "usr_";

/// What the identifier of an issue begins with.
pub const ISSUE_PREFIX: &'static str = "iss_";

/// What the identifier of a group begins with.
pub const GROUP_PREFIX: &'static str = "grp_";

/// What the identifier of a message begins with.
pub const MESSAGE_PREFIX: &'static str = "msg_";

/// Category of an issue that nobody has confirmed.
pub const UNVERIFIED: &'static str = "unverified";

impl User {
    /// The user with the identifier `id` that was registered at
    /// `created_at`, in seconds since the Unix epoch.
    pub fn assemble(id: String, username: String, created_at: u64) -> (user: User)
        ensures
            user.id == id,
            user.username == username,
            user.created_at == created_at,
    {
        User { id, username, created_at }
    }

    /// Registers a user under a fresh identifier, stamped with the time
    /// that the clock reads.
    pub fn create(username: String) -> (user: User)
        ensures
            user.username == username,
            is_id_with_prefix(user.id@, USER_PREFIX@),
    {
        Self::assemble(fresh_id(USER_PREFIX), username, now())
    }
}

impl Issue {
    /// The issue with the identifier `id` that was submitted as `input` at
    /// `created_at`, in seconds since the Unix epoch: unverified and with
    /// its first report. Where it comes with an image, the outcome of the
    /// image's classification is analysed and kept; where it comes without
    /// one, the outcome is not looked at.
    pub fn assemble(
        id: String,
        input: NewIssue,
        outcome: &ClassifierOutcome,
        created_at: u64,
    ) -> (issue: Issue)
        ensures
            issue.id == id,
            issue.title == input.title,
            issue.description == input.description,
            issue.coords == input.coords,
            issue.image_url == input.image_url,
            issue.category@ == UNVERIFIED@,
            issue.reports == INITIAL_REPORTS,
            issue.ai is Some <==> input.image_url is Some,
            issue.ai matches Some(result) ==> result.derived_from(raw_boxes_spec(*outcome)),
            issue.created_at == created_at,
    {
        let ai = if input.image_url.is_some() {
            Some(analyze(outcome))
        } else {
            None
        };
        Issue {
            id,
            title: input.title,
            description: input.description,
            coords: input.coords,
            image_url: input.image_url,
            category: UNVERIFIED.to_owned(),
            ai,
            reports: INITIAL_REPORTS,
            created_at,
        }
    }

    /// Files a submitted issue under a fresh identifier, stamped with the
    /// time that the clock reads, and otherwise as
    /// [`assemble`](Self::assemble) makes it.
    pub fn create(input: NewIssue, outcome: &ClassifierOutcome) -> (issue: Issue)
        ensures
            is_id_with_prefix(issue.id@, ISSUE_PREFIX@),
            issue.title == input.title,
            issue.description == input.description,
            issue.coords == input.coords,
            issue.image_url == input.image_url,
            issue.category@ == UNVERIFIED@,
            issue.reports == INITIAL_REPORTS,
            issue.ai is Some <==> input.image_url is Some,
            issue.ai matches Some(result) ==> result.derived_from(raw_boxes_spec(*outcome)),
    {
        Self::assemble(fresh_id(ISSUE_PREFIX), input, outcome, now())
    }
}

impl Message {
    /// The message with the identifier `id` that `input` asked to post to
    /// the group `group_id` at `created_at`, in seconds since the Unix
    /// epoch.
    pub fn assemble(id: String, group_id: String, input: NewMessage, created_at: u64) -> (message:
        Message)
        ensures
            message.id == id,
            message.group_id == group_id,
            message.sender_id == input.sender_id,
            message.sender_name == input.sender_name,
            message.text == input.text,
            message.created_at == created_at,
    {
        Message {
            id,
            group_id,
            sender_id: input.sender_id,
            sender_name: input.sender_name,
            text: input.text,
            created_at,
        }
    }

    /// Makes the message that `input` asks to post to the group
    /// `group_id`, under a fresh identifier and stamped with the time that
    /// the clock reads.
    pub fn create(group_id: String, input: NewMessage) -> (message: Message)
        ensures
            is_id_with_prefix(message.id@, MESSAGE_PREFIX@),
            message.group_id == group_id,
            message.sender_id == input.sender_id,
            message.sender_name == input.sender_name,
            message.text == input.text,
    {
        Self::assemble(fresh_id(MESSAGE_PREFIX), group_id, input, now())
    }
}

impl Group {
    /// The identifiers of the members, in the order in which they joined.
    pub open spec fn member_ids(self) -> Seq<Seq<char>> {
        self.members.deep_view()
    }

    pub open spec fn has_member(self, user_id: Seq<char>) -> bool {
        self.member_ids().contains(user_id)
    }

    /// No member is listed twice.
    pub open spec fn well_formed(self) -> bool {
        self.member_ids().no_duplicates()
    }

    /// The group with the identifier `id` that was founded around the
    /// issue `issue_id` at `created_at`, in seconds since the Unix epoch,
    /// with `user_id` as its only member.
    pub fn assemble(
        id: String,
        issue_id: String,
        name: String,
        user_id: String,
        created_at: u64,
    ) -> (group: Group)
        ensures
            group.id == id,
            group.issue_id == issue_id,
            group.name == name,
            group.members@ == seq![user_id],
            group.member_ids() == seq![user_id@],
            group.created_at == created_at,
            group.well_formed(),
    {
        let mut members: Vec<String> = Vec::new();
        members.push(user_id);
        let group = Group { id, issue_id, name, members, created_at };
        assert(group.members@ =~= seq![user_id]);
        assert(group.member_ids() =~= seq![user_id@]);
        group
    }

    /// Founds a group around the issue `issue_id` with `user_id` as its
    /// first member, under a fresh identifier and stamped with the time
    /// that the clock reads.
    pub fn create(issue_id: String, name: String, user_id: String) -> (group: Group)
        ensures
            is_id_with_prefix(group.id@, GROUP_PREFIX@),
            group.issue_id == issue_id,
            group.name == name,
            group.members@ == seq![user_id],
            group.member_ids() == seq![user_id@],
            group.well_formed(),
    {
        Self::assemble(fresh_id(GROUP_PREFIX), issue_id, name, user_id, now())
    }

    pub fn is_member(&self, user_id: &String) -> (yes: bool)
        ensures
            yes == self.has_member(user_id@),
    {
        let mut i: usize = 0;
        while i < self.members.len()
            invariant
                i <= self.members.len(),
                forall|j: int| 0 <= j < i ==> self.member_ids()[j] != user_id@,
            decreases self.members.len() - i,
        {
            if self.members[i] == *user_id {
                assert(self.member_ids()[i as int] == user_id@);
                return true;
            }
            i += 1;
        }
        false
    }

    /// Adds a member at the end of the list, unless they are in it.
    pub fn add_member(&mut self, user_id: String)
        ensures
            final(self).member_ids() == if old(self).has_member(user_id@) {
                old(self).member_ids()
            } else {
                old(self).member_ids().push(user_id@)
            },
            *final(self) == (Group { members: final(self).members, ..*old(self) }),
            final(self).has_member(user_id@),
            old(self).well_formed() ==> final(self).well_formed(),
    {
        if !self.is_member(&user_id) {
            let ghost before = self.member_ids();
            self.members.push(user_id);
            assert(self.member_ids() =~= before.push(user_id@));
            assert(self.member_ids()[before.len() as int] == user_id@);
        }
    }

    /// Removes a member; the others keep their order.
    pub fn remove_member(&mut self, user_id: &String)
        ensures
            final(self).member_ids() == old(self).member_ids().filter(
                |member: Seq<char>| member != user_id@,
            ),
            *final(self) == (Group { members: final(self).members, ..*old(self) }),
            !final(self).has_member(user_id@),
            old(self).well_formed() ==> final(self).well_formed(),
    {
        let ghost before = self.member_ids();
        let ghost keep = |member: Seq<char>| member != user_id@;
        let mut kept: Vec<String> = Vec::new();
        let mut i: usize = 0;
        while i < self.members.len()
            invariant
                i <= self.members.len(),
                self.member_ids() == before,
                *self == *old(self),
                forall|member: Seq<char>| #[trigger] keep(member) == (member != user_id@),
                kept.deep_view() == before.take(i as int).filter(keep),
            decreases self.members.len() - i,
        {
            proof {
                lemma_filter_take_next(before, keep, i as int);
            }
            let leaves = self.members[i] == *user_id;
            assert(before[i as int] == self.members[i as int]@);
            if !leaves {
                let ghost so_far = kept.deep_view();
                kept.push(self.members[i].clone());
                assert(kept.deep_view() =~= so_far.push(before[i as int]));
            }
            i += 1;
        }
        self.members = kept;
        proof {
            assert(before.take(before.len() as int) =~= before);
            lemma_filter_drops(before, keep, user_id@);
            if old(self).well_formed() {
                lemma_filter_keeps_no_duplicates(before, keep);
            }
        }
    }
}

} // verus!
