//! What the handlers compute on the lists of records that the store holds.
//! Loading a list and saving it back is the caller's part.

use crate::message::Message;
use crate::records::{Group, Issue};
use crate::seqs::lemma_filter_take_next;
use vstd::prelude::*;

verus! {

/// The member list of `group` after `user_id` asked to join the group
/// `group_id`: the user is added at the end if this is the group and they
/// are not in it.
pub open spec fn members_after_join(group: Group, group_id: Seq<char>, user_id: Seq<char>) -> Seq<
    Seq<char>,
> {
    if group.id@ == group_id && !group.has_member(user_id) {
        group.member_ids().push(user_id)
    } else {
        group.member_ids()
    }
}

/// The member list of `group` after `user_id` asked to leave the group
/// `group_id`.
pub open spec fn members_after_leave(group: Group, group_id: Seq<char>, user_id: Seq<char>) -> Seq<
    Seq<char>,
> {
    if group.id@ == group_id {
        group.member_ids().filter(|member: Seq<char>| member != user_id)
    } else {
        group.member_ids()
    }
}

/// Adds `user_id` to every group whose identifier is `group_id`, unless
/// they are a member. The groups keep their places and everything else
/// about them.
pub fn join_group(groups: &mut Vec<Group>, group_id: &String, user_id: &String)
    ensures
        final(groups).len() == old(groups).len(),
        forall|i: int|
            #![trigger final(groups)[i]]
            0 <= i < old(groups).len() ==> {
                &&& final(groups)[i] == (Group {
                    members: final(groups)[i].members,
                    ..old(groups)[i]
                })
                &&& final(groups)[i].member_ids() == members_after_join(
                    old(groups)[i],
                    group_id@,
                    user_id@,
                )
                &&& old(groups)[i].well_formed() ==> final(groups)[i].well_formed()
            },
{
    let mut i: usize = 0;
    while i < groups.len()
        invariant
            i <= groups.len(),
            groups.len() == old(groups).len(),
            forall|j: int| i <= j < groups.len() ==> groups[j] == old(groups)[j],
            forall|j: int|
                #![trigger groups[j]]
                0 <= j < i ==> {
                    &&& groups[j] == (Group { members: groups[j].members, ..old(groups)[j] })
                    &&& groups[j].member_ids() == members_after_join(
                        old(groups)[j],
                        group_id@,
                        user_id@,
                    )
                    &&& old(groups)[j].well_formed() ==> groups[j].well_formed()
                },
        decreases groups.len() - i,
    {
        if groups[i].id == *group_id {
            groups[i].add_member(user_id.clone());
        }
        i += 1;
    }
}

/// Removes `user_id` from every group whose identifier is `group_id`. The
/// groups keep their places and everything else about them.
pub fn leave_group(groups: &mut Vec<Group>, group_id: &String, user_id: &String)
    ensures
        final(groups).len() == old(groups).len(),
        forall|i: int|
            #![trigger final(groups)[i]]
            0 <= i < old(groups).len() ==> {
                &&& final(groups)[i] == (Group {
                    members: final(groups)[i].members,
                    ..old(groups)[i]
                })
                &&& final(groups)[i].member_ids() == members_after_leave(
                    old(groups)[i],
                    group_id@,
                    user_id@,
                )
                &&& old(groups)[i].well_formed() ==> final(groups)[i].well_formed()
            },
{
    let mut i: usize = 0;
    while i < groups.len()
        invariant
            i <= groups.len(),
            groups.len() == old(groups).len(),
            forall|j: int| i <= j < groups.len() ==> groups[j] == old(groups)[j],
            forall|j: int|
                #![trigger groups[j]]
                0 <= j < i ==> {
                    &&& groups[j] == (Group { members: groups[j].members, ..old(groups)[j] })
                    &&& groups[j].member_ids() == members_after_leave(
                        old(groups)[j],
                        group_id@,
                        user_id@,
                    )
                    &&& old(groups)[j].well_formed() ==> groups[j].well_formed()
                },
        decreases groups.len() - i,
    {
        if groups[i].id == *group_id {
            groups[i].remove_member(user_id);
        }
        i += 1;
    }
}

/// Removes every issue whose identifier is `issue_id` and says whether
/// there was one. The other issues keep their order.
pub fn delete_issue(issues: &mut Vec<Issue>, issue_id: &String) -> (removed: bool)
    ensures
        final(issues)@ == old(issues)@.filter(|issue: Issue| issue.id@ != issue_id@),
        removed == (final(issues).len() < old(issues).len()),
        removed == exists|i: int| 0 <= i < old(issues).len() && (#[trigger] old(issues)[i]).id@ == issue_id@,
{
    let ghost before = issues@;
    let ghost keep = |issue: Issue| issue.id@ != issue_id@;
    let mut all: Vec<Issue> = Vec::new();
    std::mem::swap(issues, &mut all);
    let count = all.len();
    for issue in it: all
        invariant
            it.seq() == before,
            count == before.len(),
            forall|issue: Issue| #[trigger] keep(issue) == (issue.id@ != issue_id@),
            issues@ == before.take(it.index() as int).filter(keep),
            issues.len() <= it.index(),
            (issues.len() < it.index()) == exists|i: int|
                0 <= i < it.index() && (#[trigger] before[i]).id@ == issue_id@,
    {
        proof {
            lemma_filter_take_next(before, keep, it.index() as int);
        }
        let leaves = issue.id == *issue_id;
        if !leaves {
            issues.push(issue);
        }
    }
    proof {
        assert(before.take(before.len() as int) =~= before);
    }
    issues.len() < count
}

/// The groups around the issue `issue_id`, in their order; all groups
/// where no issue is named.
pub fn groups_of_issue(groups: Vec<Group>, issue_id: &Option<String>) -> (found: Vec<Group>)
    ensures
        found@ == match *issue_id {
            Some(id) => groups@.filter(|group: Group| group.issue_id@ == id@),
            None => groups@,
        },
{
    match issue_id {
        None => groups,
        Some(id) => {
            let ghost all = groups@;
            let ghost keep = |group: Group| group.issue_id@ == id@;
            let mut found: Vec<Group> = Vec::new();
            for group in it: groups
                invariant
                    it.seq() == all,
                    forall|group: Group| #[trigger] keep(group) == (group.issue_id@ == id@),
                    found@ == all.take(it.index() as int).filter(keep),
            {
                proof {
                    lemma_filter_take_next(all, keep, it.index() as int);
                }
                if group.issue_id == *id {
                    found.push(group);
                }
            }
            proof {
                assert(all.take(all.len() as int) =~= all);
            }
            found
        },
    }
}

/// The messages of the group `group_id` among `messages`, in their order.
pub open spec fn history_spec(messages: Seq<Message>, group_id: Seq<char>) -> Seq<Message> {
    messages.filter(|message: Message| message.in_group(group_id))
}

/// The history of the group `group_id`: its messages among the stored
/// ones, oldest first.
pub fn history(messages: Vec<Message>, group_id: &String) -> (found: Vec<Message>)
    ensures
        found@ == history_spec(messages@, group_id@),
{
    let ghost all = messages@;
    let ghost keep = |message: Message| message.in_group(group_id@);
    let mut found: Vec<Message> = Vec::new();
    for message in it: messages
        invariant
            it.seq() == all,
            forall|message: Message| #[trigger] keep(message) == message.in_group(group_id@),
            found@ == all.take(it.index() as int).filter(keep),
    {
        proof {
            lemma_filter_take_next(all, keep, it.index() as int);
        }
        if message.belongs_to(group_id) {
            found.push(message);
        }
    }
    proof {
        assert(all.take(all.len() as int) =~= all);
    }
    found
}

/// A message that has been appended to the stored ones is the newest
/// entry of its group's history.
pub proof fn lemma_stored_message_is_in_history(stored: Seq<Message>, message: Message)
    ensures
        history_spec(stored.push(message), message.group_id@) == history_spec(
            stored,
            message.group_id@,
        ).push(message),
        history_spec(stored.push(message), message.group_id@).contains(message),
{
    let keep = |m: Message| m.in_group(message.group_id@);
    let all = stored.push(message);
    lemma_filter_take_next(all, keep, stored.len() as int);
    assert(all.take(stored.len() as int) =~= stored);
    assert(all.take(all.len() as int) =~= all);
    let h = history_spec(stored, message.group_id@).push(message);
    assert(h[h.len() - 1] == message);
}

} // verus!
