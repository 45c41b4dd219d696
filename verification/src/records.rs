//! The records that the registry and the action log keep, each with its
//! mathematical view: text as a sequence of characters, amounts as integers.

use vstd::prelude::*;
use vstd::string::*;
use crate::text::same_text;

verus! {

/// How far the verification of a user has come.
#[derive(Clone, Copy, Debug, PartialEq, Eq, Structural)]
pub enum VerificationStatus {
    Unverified,
    Pending,
    Verified,
}

/// What became of a reported action.
#[derive(Clone, Copy, Debug, PartialEq, Eq, Structural)]
pub enum ActionStatus {
    Pending,
    Completed,
    Rejected,
}

impl VerificationStatus {
    /// The word that stands for the status where it is written out.
    pub open spec fn label_of(self) -> Seq<char> {
        match self {
            VerificationStatus::Unverified => "unverified"@,
            VerificationStatus::Pending => "pending"@,
            VerificationStatus::Verified => "verified"@,
        }
    }

    /// The word that stands for the status where it is written out.
    pub fn label(&self) -> (label: &'static str)
        ensures
            label@ == self.label_of(),
    {
        match self {
            VerificationStatus::Unverified => "unverified",
            VerificationStatus::Pending => "pending",
            VerificationStatus::Verified => "verified",
        }
    }

    /// The status that `label` stands for, if it stands for one.
    pub fn from_label(label: &str) -> (status: Option<Self>)
        ensures
            match status {
                Some(found) => found.label_of() == label@,
                None => forall|any: VerificationStatus| any.label_of() != label@,
            },
    {
        if same_text(label, "unverified") {
            Some(VerificationStatus::Unverified)
        } else if same_text(label, "pending") {
            Some(VerificationStatus::Pending)
        } else if same_text(label, "verified") {
            Some(VerificationStatus::Verified)
        } else {
            None
        }
    }

    /// No two statuses share a word.
    pub proof fn lemma_labels_differ(a: VerificationStatus, b: VerificationStatus)
        requires
            a.label_of() == b.label_of(),
        ensures
            a == b,
    {
        reveal_strlit("unverified");
        reveal_strlit("pending");
        reveal_strlit("verified");
        assert("pending"@.len() == 7);
        assert("verified"@.len() == 8);
    }
}

impl ActionStatus {
    /// The word that stands for the status where it is written out.
    pub open spec fn label_of(self) -> Seq<char> {
        match self {
            ActionStatus::Pending => "pending"@,
            ActionStatus::Completed => "completed"@,
            ActionStatus::Rejected => "rejected"@,
        }
    }

    /// The word that stands for the status where it is written out.
    pub fn label(&self) -> (label: &'static str)
        ensures
            label@ == self.label_of(),
    {
        match self {
            ActionStatus::Pending => "pending",
            ActionStatus::Completed => "completed",
            ActionStatus::Rejected => "rejected",
        }
    }

    /// The status that `label` stands for, if it stands for one.
    pub fn from_label(label: &str) -> (status: Option<Self>)
        ensures
            match status {
                Some(found) => found.label_of() == label@,
                None => forall|any: ActionStatus| any.label_of() != label@,
            },
    {
        if same_text(label, "pending") {
            Some(ActionStatus::Pending)
        } else if same_text(label, "completed") {
            Some(ActionStatus::Completed)
        } else if same_text(label, "rejected") {
            Some(ActionStatus::Rejected)
        } else {
            None
        }
    }

    /// No two statuses share a word.
    pub proof fn lemma_labels_differ(a: ActionStatus, b: ActionStatus)
        requires
            a.label_of() == b.label_of(),
        ensures
            a == b,
    {
        reveal_strlit("pending");
        reveal_strlit("completed");
        reveal_strlit("rejected");
        assert("completed"@.len() == 9);
        assert("rejected"@.len() == 8);
    }
}

/// The account of one user, kept under the user's public key.
#[derive(Debug, PartialEq, Eq)]
pub struct UserInfo {
    pub public_key: String,
    pub name: String,
    /// ciudadano, agricultor or negocio
    pub role: String,
    pub municipio: String,
    pub verification_status: VerificationStatus,
    pub balance: i128,
    pub co2_saved: i128,
    pub total_actions: u32,
}

/// What a `UserInfo` stands for.
pub struct UserInfoView {
    pub public_key: Seq<char>,
    pub name: Seq<char>,
    pub role: Seq<char>,
    pub municipio: Seq<char>,
    pub verification_status: VerificationStatus,
    pub balance: int,
    pub co2_saved: int,
    pub total_actions: nat,
}

impl View for UserInfo {
    type V = UserInfoView;

    open spec fn view(&self) -> UserInfoView {
        UserInfoView {
            public_key: self.public_key@,
            name: self.name@,
            role: self.role@,
            municipio: self.municipio@,
            verification_status: self.verification_status,
            balance: self.balance as int,
            co2_saved: self.co2_saved as int,
            total_actions: self.total_actions as nat,
        }
    }
}

impl Clone for UserInfo {
    fn clone(&self) -> (copy: Self)
        ensures
            copy == *self,
    {
        UserInfo {
            public_key: self.public_key.clone(),
            name: self.name.clone(),
            role: self.role.clone(),
            municipio: self.municipio.clone(),
            verification_status: self.verification_status,
            balance: self.balance,
            co2_saved: self.co2_saved,
            total_actions: self.total_actions,
        }
    }
}

/// One reported ecological action, kept under its number.
#[derive(Debug, PartialEq, Eq)]
pub struct Action {
    pub id: u32,
    pub user_public_key: String,
    pub action_type: String,
    pub description: String,
    pub evidence: String,
    pub reward_amount: i128,
    pub co2_saved: i128,
    pub status: ActionStatus,
    pub created_at: u64,
}

/// What an `Action` stands for.
pub struct ActionView {
    pub id: nat,
    pub user_public_key: Seq<char>,
    pub action_type: Seq<char>,
    pub description: Seq<char>,
    pub evidence: Seq<char>,
    pub reward_amount: int,
    pub co2_saved: int,
    pub status: ActionStatus,
    pub created_at: nat,
}

impl View for Action {
    type V = ActionView;

    open spec fn view(&self) -> ActionView {
        ActionView {
            id: self.id as nat,
            user_public_key: self.user_public_key@,
            action_type: self.action_type@,
            description: self.description@,
            evidence: self.evidence@,
            reward_amount: self.reward_amount as int,
            co2_saved: self.co2_saved as int,
            status: self.status,
            created_at: self.created_at as nat,
        }
    }
}

impl Clone for Action {
    fn clone(&self) -> (copy: Self)
        ensures
            copy == *self,
    {
        Action {
            id: self.id,
            user_public_key: self.user_public_key.clone(),
            action_type: self.action_type.clone(),
            description: self.description.clone(),
            evidence: self.evidence.clone(),
            reward_amount: self.reward_amount,
            co2_saved: self.co2_saved,
            status: self.status,
            created_at: self.created_at,
        }
    }
}

/// The views of a sequence of users, in the same order.
pub open spec fn user_views(users: Seq<UserInfo>) -> Seq<UserInfoView> {
    users.map_values(|u: UserInfo| u@)
}

/// The views of a sequence of actions, in the same order.
pub open spec fn action_views(actions: Seq<Action>) -> Seq<ActionView> {
    actions.map_values(|a: Action| a@)
}

/// The view of what one action number holds.
pub open spec fn action_slot_view(slot: Option<Action>) -> Option<ActionView> {
    match slot {
        Some(action) => Some(action@),
        None => None,
    }
}

/// The views of what a run of action numbers holds, in the same order.
pub open spec fn action_slot_views(slots: Seq<Option<Action>>) -> Seq<Option<ActionView>> {
    slots.map_values(|slot: Option<Action>| action_slot_view(slot))
}

} // verus!
