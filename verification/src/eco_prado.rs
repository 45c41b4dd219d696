//! The rewards contract: registration of users, reports of ecological
//! actions and the credit they earn.

use vstd::prelude::*;
use vstd::string::*;
use crate::eco_model::{
    accounts_of, distinct_accounts, known_users, lemma_accounts_hold, lemma_accounts_keys,
    EcoPradoState,
};
use crate::journal::{filled, Journal};
use crate::records::{
    action_slot_views, action_views, user_views, Action, ActionStatus, ActionView, UserInfo,
    UserInfoView, VerificationStatus,
};
use crate::rewards::{
    action_co2, action_reward, lemma_action_amounts_bounded, max_action_co2, max_action_reward,
    MAX_ACTION_CO2, MAX_ACTION_REWARD,
};
use crate::store::Store;
use crate::text::same_text;
use crate::verification::{
    accepted, has_fields, id_kind_of, id_pattern_of, search_pattern, validate_with_answer,
    VerificationData,
};

verus! {

/// The accounts that a map of stored users stands for.
pub open spec fn user_map(users: Map<Seq<char>, UserInfo>) -> Map<Seq<char>, UserInfoView> {
    Map::new(|key: Seq<char>| users.dom().contains(key), |key: Seq<char>| users[key]@)
}

/// The actions that a map of stored actions stands for.
pub open spec fn action_map(actions: Map<nat, Action>) -> Map<nat, ActionView> {
    Map::new(|id: nat| actions.dom().contains(id), |id: nat| actions[id]@)
}

/// The public key that the ranking looks up in place `i`.
fn known_user(i: usize) -> (key: &'static str)
    requires
        i < known_users().len(),
    ensures
        key@ == known_users()[i as int],
{
    if i == 0 {
        "user1"
    } else if i == 1 {
        "user2"
    } else if i == 2 {
        "user3"
    } else if i == 3 {
        "user4"
    } else {
        "user5"
    }
}

/// The rewards contract with all that it has stored.
#[derive(Debug)]
pub struct EcoPradoContract {
    admin: String,
    users: Store<UserInfo>,
    actions: Journal<Action>,
}

impl View for EcoPradoContract {
    type V = EcoPradoState;

    closed spec fn view(&self) -> EcoPradoState {
        EcoPradoState {
            admin: self.admin@,
            users: user_map(self.users@),
            actions: action_map(self.actions.records()),
            action_id: self.actions.issued(),
        }
    }
}

impl EcoPradoContract {
    /// The stores are sound.
    pub closed spec fn inv(&self) -> bool {
        &&& self.users.inv()
        &&& self.actions.inv()
    }

    /// The contract is in a consistent state.
    pub open spec fn wf(&self) -> bool {
        &&& self.inv()
        &&& self@.wf()
    }

    /// The contract after initialisation, with `admin` as its administrator.
    pub fn initialize(admin: String) -> (contract: Self)
        ensures
            contract.wf(),
            contract@ == EcoPradoState::fresh(admin@),
    {
        let contract = EcoPradoContract { admin, users: Store::new(), actions: Journal::new() };
        proof {
            assert(contract@.users =~= Map::empty());
            assert(contract@.actions =~= Map::empty());
        }
        contract
    }

    /// Registers a user under `public_key`, unverified and with nothing
    /// earned yet, in place of any account that was there.
    pub fn register_user(
        &mut self,
        public_key: String,
        name: String,
        role: String,
        municipio: String,
    ) -> (user_info: UserInfo)
        requires
            old(self).wf(),
        ensures
            final(self).wf(),
            user_info@ == EcoPradoState::new_user(public_key@, name@, role@, municipio@),
            final(self)@ == old(self)@.with_user(user_info@),
    {
        let user_info = UserInfo {
            public_key,
            name,
            role,
            municipio,
            verification_status: VerificationStatus::Unverified,
            balance: 0,
            co2_saved: 0,
            total_actions: 0,
        };
        self.users.set(user_info.public_key.as_str(), user_info.clone());
        proof {
            assert(self@.users =~= old(self)@.users.insert(user_info@.public_key, user_info@));
        }
        user_info
    }

    /// The account under `public_key`, if there is one.
    pub fn get_user(&self, public_key: &str) -> (found: Option<UserInfo>)
        requires
            self.wf(),
        ensures
            match found {
                Some(user_info) => self@.user(public_key@) == Some(user_info@),
                None => self@.user(public_key@) is None,
            },
    {
        match self.users.get(public_key) {
            Some(user_info) => Some(user_info.clone()),
            None => None,
        }
    }

    /// Decides a verification request: the identifier, the name and the
    /// municipality must be given, the identifier type must be known, and the
    /// identifier must have the format of its type.
    pub fn validate_government_data(verification_data: &VerificationData) -> (is_valid: bool)
        ensures
            is_valid == accepted(verification_data@),
    {
        if !has_fields(verification_data) {
            return false;
        }
        match id_kind_of(verification_data.id_type.as_str()) {
            Some(kind) => {
                let answer = search_pattern(
                    id_pattern_of(kind),
                    verification_data.id_number.as_str(),
                );
                validate_with_answer(verification_data, answer)
            },
            None => false,
        }
    }

    /// Records the outcome of a verification request for `id_number`: after a
    /// valid one the account under that identifier, if there is one, is
    /// verified. Returns the outcome.
    pub fn record_verification(&mut self, id_number: &str, is_valid: bool) -> (outcome: bool)
        requires
            old(self).wf(),
        ensures
            final(self).wf(),
            outcome == is_valid,
            final(self)@ == old(self)@.after_verification(id_number@, is_valid),
    {
        if is_valid {
            if let Some(mut user_info) = self.get_user(id_number) {
                user_info.verification_status = VerificationStatus::Verified;
                self.users.set(id_number, user_info);
                proof {
                    assert(self@.users =~= old(self)@.users.insert(id_number@, user_info@));
                }
            }
        }
        is_valid
    }

    /// Takes a verification request, decides it, and after a valid one marks
    /// the account under its identifier, if there is one, as verified.
    pub fn submit_verification(&mut self, verification_data: VerificationData) -> (is_valid: bool)
        requires
            old(self).wf(),
        ensures
            final(self).wf(),
            is_valid == accepted(verification_data@),
            final(self)@ == old(self)@.after_verification(
                verification_data@.id_number,
                is_valid,
            ),
    {
        let is_valid: bool = Self::validate_government_data(&verification_data);
        self.record_verification(verification_data.id_number.as_str(), is_valid)
    }

    /// Reward of a reported action of the given kind.
    pub fn calculate_reward(action_type: &str) -> (reward: i128)
        ensures
            reward == action_reward(action_type@),
    {
        if same_text(action_type, "reciclaje") {
            10
        } else if same_text(action_type, "transporte_verde") {
            15
        } else if same_text(action_type, "ahorro_agua") {
            8
        } else if same_text(action_type, "agricultura_sostenible") {
            25
        } else if same_text(action_type, "educacion_ambiental") {
            20
        } else {
            5
        }
    }

    /// CO2 that a reported action of the given kind is taken to save.
    pub fn calculate_co2_saved(action_type: &str) -> (co2: i128)
        ensures
            co2 == action_co2(action_type@),
    {
        if same_text(action_type, "reciclaje") {
            2
        } else if same_text(action_type, "transporte_verde") {
            5
        } else if same_text(action_type, "ahorro_agua") {
            1
        } else if same_text(action_type, "agricultura_sostenible") {
            8
        } else if same_text(action_type, "educacion_ambiental") {
            3
        } else {
            1
        }
    }

    /// Issues the next action number.
    fn get_next_action_id(&mut self) -> (next_id: u32)
        requires
            old(self).wf(),
            old(self)@.action_id < u32::MAX,
        ensures
            final(self).wf(),
            next_id == old(self)@.action_id + 1,
            final(self)@ == (EcoPradoState { action_id: next_id as nat, ..old(self)@ }),
    {
        self.actions.issue()
    }

    /// Credits the account under `public_key`, if there is one, with the
    /// reward and the CO2 of one action.
    fn credit(&mut self, public_key: &str, reward_amount: i128, co2_saved: i128)
        requires
            old(self).wf(),
            0 <= reward_amount <= max_action_reward(),
            0 <= co2_saved <= max_action_co2(),
            forall|key: Seq<char>| #[trigger]
                old(self)@.users.dom().contains(key) ==> old(self)@.users[key].total_actions < old(
                    self,
                )@.action_id,
        ensures
            final(self).wf(),
            final(self)@ == old(self)@.credited(
                public_key@,
                reward_amount as int,
                co2_saved as int,
            ),
    {
        let found = match self.users.get(public_key) {
            Some(user) => Some(user.clone()),
            None => None,
        };
        if let Some(mut user_info) = found {
            assert(self@.users.dom().contains(public_key@));
            user_info.balance += reward_amount;
            user_info.co2_saved += co2_saved;
            user_info.total_actions += 1;
            self.users.set(public_key, user_info);
            proof {
                assert(self@.users =~= old(self)@.users.insert(public_key@, user_info@));
            }
        }
    }

    /// Records an ecological action of `user_public_key` at time `now` and
    /// credits its reward to that user, where the user is registered.
    pub fn report_action(
        &mut self,
        user_public_key: String,
        action_type: String,
        description: String,
        evidence: String,
        now: u64,
    ) -> (action: Action)
        requires
            old(self).wf(),
            old(self)@.action_id < u32::MAX,
        ensures
            final(self).wf(),
            action@ == old(self)@.reported(
                user_public_key@,
                action_type@,
                description@,
                evidence@,
                now as nat,
            ),
            final(self)@ == old(self)@.after_report(action@),
    {
        let action_id: u32 = self.get_next_action_id();
        let reward_amount: i128 = Self::calculate_reward(action_type.as_str());
        let co2_saved: i128 = Self::calculate_co2_saved(action_type.as_str());
        proof {
            lemma_action_amounts_bounded(action_type@);
        }
        let action = Action {
            id: action_id,
            user_public_key: user_public_key.clone(),
            action_type,
            description,
            evidence,
            reward_amount,
            co2_saved,
            status: ActionStatus::Completed,
            created_at: now,
        };
        let ghost issued = self@;
        self.actions.put(action_id, action.clone());
        proof {
            assert(self@.actions =~= issued.actions.insert(action@.id, action@));
        }
        self.credit(user_public_key.as_str(), reward_amount, co2_saved);
        action
    }

    /// The actions of `user_public_key`, in the order of their numbers, as
    /// far as a scan from number 1 reaches: it stops at the first number that
    /// holds no record.
    pub fn get_user_actions(&self, user_public_key: &str) -> (actions: Vec<Action>)
        requires
            self.wf(),
        ensures
            action_views(actions@) == self@.visible_actions(user_public_key@),
    {
        let mut actions: Vec<Action> = Vec::new();
        let last: u64 = self.actions.last_issued() as u64;
        let mut current_id: u64 = 1;
        while current_id <= last
            invariant
                self.wf(),
                last == self@.action_id,
                1 <= current_id <= last + 1,
                forall|id: nat| 1 <= id < current_id ==> self@.actions.dom().contains(id),
                action_views(actions@) == self@.visible_before(
                    user_public_key@,
                    current_id as nat,
                ),
            decreases last + 1 - current_id,
        {
            match self.actions.get(current_id as u32) {
                Some(action) => {
                    proof {
                        self@.lemma_visible_step(user_public_key@, current_id as nat);
                    }
                    if same_text(action.user_public_key.as_str(), user_public_key) {
                        actions.push(action.clone());
                    }
                    current_id += 1;
                },
                None => {
                    proof {
                        self@.lemma_first_gap_is(current_id as nat);
                    }
                    return actions;
                },
            }
        }
        proof {
            self@.lemma_first_gap_is(current_id as nat);
        }
        actions
    }

    /// The accounts of `municipio` among the known users, in the order in
    /// which those are looked up. Nothing sorts them.
    pub fn get_ranking(&self, municipio: &str) -> (users: Vec<UserInfo>)
        requires
            self.wf(),
        ensures
            user_views(users@) == self@.ranking(municipio@),
    {
        let mut users: Vec<UserInfo> = Vec::new();
        let mut i: usize = 0;
        while i < 5
            invariant
                self.wf(),
                i <= 5,
                known_users().len() == 5,
                user_views(users@) == self@.ranking_of_first(municipio@, i as nat),
            decreases 5 - i,
        {
            if let Some(user_info) = self.get_user(known_user(i)) {
                if same_text(user_info.municipio.as_str(), municipio) {
                    users.push(user_info);
                }
            }
            i += 1;
        }
        users
    }

    /// The administrator.
    pub fn admin(&self) -> (admin: String)
        ensures
            admin@ == self@.admin,
    {
        self.admin.clone()
    }

    /// The last action number issued, 0 where none was.
    pub fn action_id(&self) -> (id: u32)
        requires
            self.wf(),
        ensures
            id == self@.action_id,
    {
        self.actions.last_issued()
    }

    /// All accounts, each once.
    pub fn users(&self) -> (list: Vec<UserInfo>)
        requires
            self.wf(),
        ensures
            distinct_accounts(user_views(list@)),
            accounts_of(user_views(list@)) == self@.users,
    {
        let n: usize = self.users.len();
        let mut list: Vec<UserInfo> = Vec::new();
        let mut i: usize = 0;
        proof {
            self.users.lemma_slots();
        }
        while i < n
            invariant
                self.wf(),
                n == self.users.keys().len(),
                n == self.users.values().len(),
                i <= n,
                list@.len() == i,
                forall|j: int| 0 <= j < i ==> list@[j] == self.users.values()[j],
            decreases n - i,
        {
            list.push(self.users.value_at(i).clone());
            i += 1;
        }
        proof {
            let views = user_views(list@);
            self.users.lemma_slots();
            assert forall|j: int| 0 <= j < views.len() implies #[trigger] views[j].public_key
                == self.users.keys()[j] && self@.users.dom().contains(views[j].public_key)
                && self@.users[views[j].public_key] == views[j] by {
                assert(self@.users.dom().contains(self.users.keys()[j]));
            }
            assert forall|key: Seq<char>| #[trigger]
                accounts_of(views).dom().contains(key) implies self@.users.dom().contains(key) by {
                lemma_accounts_keys(views, key);
            }
            assert forall|key: Seq<char>| #[trigger]
                self@.users.dom().contains(key) implies accounts_of(views).dom().contains(key)
                && accounts_of(views)[key] == self@.users[key] by {
                let j = choose|j: int|
                    0 <= j < self.users.keys().len() && self.users.keys()[j] == key;
                lemma_accounts_hold(views, j);
            }
        }
        list
    }

    /// What each action number holds: place `i` is for number `i + 1`.
    pub fn actions(&self) -> (slots: Vec<Option<Action>>)
        requires
            self.wf(),
        ensures
            slots@.len() == self@.action_id,
            filled(action_slot_views(slots@)) == self@.actions,
    {
        let held = self.actions.slots();
        let n: usize = held.len();
        let mut slots: Vec<Option<Action>> = Vec::new();
        let mut i: usize = 0;
        while i < n
            invariant
                n == held@.len(),
                i <= n,
                slots@.len() == i,
                forall|j: int| 0 <= j < i ==> slots@[j] == held@[j],
            decreases n - i,
        {
            let copy = match &held[i] {
                Some(action) => Some(action.clone()),
                None => None,
            };
            slots.push(copy);
            i += 1;
        }
        slots
    }

    /// The contract that holds the listed accounts and, under number `i + 1`,
    /// what place `i` of `actions` holds. There is none where two accounts
    /// have one public key, where the action numbers do not fit 32 bits, or
    /// where the accounts and actions are not consistent.
    pub fn restore(
        admin: String,
        users: Vec<UserInfo>,
        actions: Vec<Option<Action>>,
    ) -> (restored: Option<Self>)
        ensures
            restored is Some <==> {
                &&& distinct_accounts(user_views(users@))
                &&& EcoPradoState::assembled(
                    admin@,
                    user_views(users@),
                    action_slot_views(actions@),
                ).wf()
            },
            restored matches Some(contract) ==> {
                &&& contract.wf()
                &&& contract@ == EcoPradoState::assembled(
                    admin@,
                    user_views(users@),
                    action_slot_views(actions@),
                )
            },
    {
        let ghost views = user_views(users@);
        let ghost slot_views = action_slot_views(actions@);
        let ghost whole = EcoPradoState::assembled(admin@, views, slot_views);
        if actions.len() > 0xFFFF_FFFF {
            return None;
        }
        let issued: u32 = actions.len() as u32;
        let mut k: usize = 0;
        while k < actions.len()
            invariant
                k <= actions@.len(),
                slot_views == action_slot_views(actions@),
                views == user_views(users@),
                whole == EcoPradoState::assembled(admin@, views, slot_views),
                whole.actions == filled(slot_views),
                whole.action_id == actions@.len(),
                forall|j: int|
                    0 <= j < k ==> (#[trigger] actions@[j] matches Some(action) ==> action.id == j
                        + 1),
            decreases actions@.len() - k,
        {
            if let Some(action) = &actions[k] {
                if action.id as usize != k + 1 {
                    proof {
                        assert(whole.actions.dom().contains((k + 1) as nat));
                    }
                    return None;
                }
            }
            k += 1;
        }
        let mut store: Store<UserInfo> = Store::new();
        let mut i: usize = 0;
        while i < users.len()
            invariant
                i <= users@.len(),
                views == user_views(users@),
                slot_views == action_slot_views(actions@),
                whole == EcoPradoState::assembled(admin@, views, slot_views),
                whole.users == accounts_of(views),
                whole.action_id == issued,
                store.inv(),
                user_map(store@) == accounts_of(views.take(i as int)),
                distinct_accounts(views.take(i as int)),
                forall|j: int| 0 <= j < i ==> whole.user_within_bounds(#[trigger] views[j]),
            decreases users@.len() - i,
        {
            let user_info = &users[i];
            let ghost seen = views.take(i as int);
            let ghost longer = views.take(i + 1);
            proof {
                assert(longer.drop_last() =~= seen);
            }
            if store.has(user_info.public_key.as_str()) {
                proof {
                    lemma_accounts_keys(seen, user_info@.public_key);
                    let j = choose|j: int|
                        0 <= j < seen.len() && seen[j].public_key == user_info@.public_key;
                    assert(views[j].public_key == views[i as int].public_key);
                }
                return None;
            }
            let count: i128 = user_info.total_actions as i128;
            let within: bool = user_info.total_actions <= issued
                && 0 <= user_info.balance && user_info.balance <= MAX_ACTION_REWARD * count
                && 0 <= user_info.co2_saved && user_info.co2_saved <= MAX_ACTION_CO2 * count;
            if !within {
                proof {
                    if distinct_accounts(views) {
                        lemma_accounts_hold(views, i as int);
                    }
                }
                return None;
            }
            proof {
                assert(distinct_accounts(longer)) by {
                    assert forall|a: int, b: int|
                        0 <= a < longer.len() && 0 <= b < longer.len() && longer[a].public_key
                            == longer[b].public_key implies a == b by {
                        if a < i && b == i {
                            lemma_accounts_hold(seen, a);
                        } else if b < i && a == i {
                            lemma_accounts_hold(seen, b);
                        }
                    }
                }
            }
            store.set(user_info.public_key.as_str(), user_info.clone());
            i += 1;
        }
        proof {
            assert(views.take(users@.len() as int) =~= views);
        }
        match Journal::from_slots(actions) {
            Some(journal) => {
                let contract = EcoPradoContract { admin, users: store, actions: journal };
                proof {
                    assert(contract@.actions =~= whole.actions);
                    assert forall|key: Seq<char>| #[trigger]
                        whole.users.dom().contains(key) implies whole.users[key].public_key == key
                        && whole.user_within_bounds(whole.users[key]) by {
                        lemma_accounts_keys(views, key);
                        let j = choose|j: int| 0 <= j < views.len() && views[j].public_key == key;
                        lemma_accounts_hold(views, j);
                    }
                }
                Some(contract)
            },
            None => None,
        }
    }
}

} // verus!
