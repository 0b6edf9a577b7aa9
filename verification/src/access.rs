//! Who may talk to the bot: the access decision taken for every incoming message.

use vstd::prelude::*;

verus! {

/// What to do with an incoming message.
#[derive(Clone, Copy, Debug, PartialEq, Eq)]
pub enum AccessDecision {
    /// The group moved to a new chat id: migrate its sessions and drop the message.
    Migrate(i64),
    /// No owner is configured yet: register the sender as owner and restart.
    RegisterOwner(i64),
    /// The sender and the chat are allowed.
    Allow,
    /// The sender is allowed but the group is not.
    UnauthorizedGroup,
    /// The sender is not allowed.
    Deny,
}

/// The access decision for a message from `from_id` (0 when the sender is unknown) in
/// `chat_id`; `migrate_to` is the new chat id when the message announces a migration.
pub open spec fn access_of(
    from_id: i64,
    chat_id: i64,
    is_group: bool,
    migrate_to: Option<i64>,
    allowed_users: Seq<i64>,
    allowed_groups: Seq<i64>,
) -> AccessDecision {
    match migrate_to {
        Some(to) => AccessDecision::Migrate(to),
        None => {
            let user_ok = allowed_users.contains(from_id);
            if !user_ok && from_id != 0 && allowed_users.len() == 0 {
                AccessDecision::RegisterOwner(from_id)
            } else if !user_ok {
                AccessDecision::Deny
            } else if is_group && !allowed_groups.contains(chat_id) {
                AccessDecision::UnauthorizedGroup
            } else {
                AccessDecision::Allow
            }
        },
    }
}

fn contains_id(v: &Vec<i64>, x: i64) -> (r: bool)
    ensures
        r == v@.contains(x),
{
    let mut i: usize = 0;
    while i < v.len()
        invariant
            i <= v@.len(),
            forall|j: int| 0 <= j < i ==> v@[j] != x,
        decreases v.len() - i,
    {
        if v[i] == x {
            assert(v@[i as int] == x);
            return true;
        }
        i = i + 1;
    }
    false
}

/// Decides whether a message is let through.
pub fn authorize(
    from_id: i64,
    chat_id: i64,
    is_group: bool,
    migrate_to: Option<i64>,
    allowed_users: &Vec<i64>,
    allowed_groups: &Vec<i64>,
) -> (r: AccessDecision)
    ensures
        r == access_of(from_id, chat_id, is_group, migrate_to, allowed_users@, allowed_groups@),
{
    if let Some(to) = migrate_to {
        return AccessDecision::Migrate(to);
    }
    let user_ok = contains_id(allowed_users, from_id);
    if !user_ok && from_id != 0 && allowed_users.len() == 0 {
        AccessDecision::RegisterOwner(from_id)
    } else if !user_ok {
        AccessDecision::Deny
    } else if is_group && !contains_id(allowed_groups, chat_id) {
        AccessDecision::UnauthorizedGroup
    } else {
        AccessDecision::Allow
    }
}

/// A message is let through only if its sender is allowed and, in a group, the group is
/// allowed too; in particular an empty allow-list lets nobody through.
pub proof fn lemma_allow_requires_membership(
    from_id: i64,
    chat_id: i64,
    is_group: bool,
    migrate_to: Option<i64>,
    allowed_users: Seq<i64>,
    allowed_groups: Seq<i64>,
)
    requires
        access_of(from_id, chat_id, is_group, migrate_to, allowed_users, allowed_groups)
            == AccessDecision::Allow,
    ensures
        allowed_users.contains(from_id),
        is_group ==> allowed_groups.contains(chat_id),
        migrate_to is None,
{
}

} // verus!
