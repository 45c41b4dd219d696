//! The mathematical state of the rewards contract and what each operation
//! makes of it: users by public key, actions by number, and the counter that
//! issues the numbers.

use vstd::prelude::*;
use crate::journal::filled;
use crate::records::{ActionStatus, ActionView, UserInfoView, VerificationStatus};
use crate::rewards::{action_co2, action_reward, max_action_co2, max_action_reward};

verus! {

/// State of the rewards contract.
pub struct EcoPradoState {
    pub admin: Seq<char>,
    /// public key -> account
    pub users: Map<Seq<char>, UserInfoView>,
    /// number -> reported action
    pub actions: Map<nat, ActionView>,
    /// the last number issued
    pub action_id: nat,
}

/// The public keys that the ranking looks up, in the order it looks them up.
pub open spec fn known_users() -> Seq<Seq<char>> {
    seq!["user1"@, "user2"@, "user3"@, "user4"@, "user5"@]
}

/// The accounts that a list of accounts stands for, each under its public
/// key; of two accounts with one key the later one counts.
pub open spec fn accounts_of(list: Seq<UserInfoView>) -> Map<Seq<char>, UserInfoView>
    decreases list.len(),
{
    if list.len() == 0 {
        Map::empty()
    } else {
        accounts_of(list.drop_last()).insert(list.last().public_key, list.last())
    }
}

/// No two accounts of the list have the same public key.
pub open spec fn distinct_accounts(list: Seq<UserInfoView>) -> bool {
    forall|i: int, j: int|
        0 <= i < list.len() && 0 <= j < list.len() && list[i].public_key == list[j].public_key
            ==> i == j
}

/// Every key of the accounts of a list is the public key of one of its
/// accounts.
pub proof fn lemma_accounts_keys(list: Seq<UserInfoView>, key: Seq<char>)
    requires
        accounts_of(list).dom().contains(key),
    ensures
        exists|i: int| 0 <= i < list.len() && list[i].public_key == key,
    decreases list.len(),
{
    if list.len() > 0 && list.last().public_key != key {
        lemma_accounts_keys(list.drop_last(), key);
    }
}

/// Each account of a list without a key twice is found under its key.
pub proof fn lemma_accounts_hold(list: Seq<UserInfoView>, i: int)
    requires
        distinct_accounts(list),
        0 <= i < list.len(),
    ensures
        accounts_of(list).dom().contains(list[i].public_key),
        accounts_of(list)[list[i].public_key] == list[i],
    decreases list.len(),
{
    if i < list.len() - 1 {
        lemma_accounts_hold(list.drop_last(), i);
    }
}

/// The test whether an action was reported by `user`.
pub open spec fn reported_by(user: Seq<char>) -> spec_fn(ActionView) -> bool {
    |action: ActionView| action.user_public_key == user
}

impl EcoPradoState {
    /// The state after initialisation: no user, no action, no number issued.
    pub open spec fn fresh(admin: Seq<char>) -> EcoPradoState {
        EcoPradoState { admin, users: Map::empty(), actions: Map::empty(), action_id: 0 }
    }

    /// The state that holds the listed accounts and, under number `i + 1`,
    /// what place `i` of `actions` holds; it has issued as many numbers as
    /// `actions` has places.
    pub open spec fn assembled(
        admin: Seq<char>,
        users: Seq<UserInfoView>,
        actions: Seq<Option<ActionView>>,
    ) -> EcoPradoState {
        EcoPradoState {
            admin,
            users: accounts_of(users),
            actions: filled(actions),
            action_id: actions.len(),
        }
    }

    /// A user's totals are what at most `action_id` rewarded actions can give.
    pub open spec fn user_within_bounds(self, user: UserInfoView) -> bool {
        &&& user.total_actions <= self.action_id
        &&& 0 <= user.balance <= max_action_reward() * user.total_actions
        &&& 0 <= user.co2_saved <= max_action_co2() * user.total_actions
    }

    /// Record identity and the counter are consistent: each account sits under
    /// its own key, each action under its own number, no action has a number
    /// that was not issued, and the counter fits 32 bits.
    pub open spec fn wf(self) -> bool {
        &&& self.action_id <= u32::MAX
        &&& forall|key: Seq<char>| #[trigger]
            self.users.dom().contains(key) ==> self.users[key].public_key == key
                && self.user_within_bounds(self.users[key])
        &&& forall|id: nat| #[trigger]
            self.actions.dom().contains(id) ==> 1 <= id <= self.action_id && self.actions[id].id
                == id
    }

    /// The account under `public_key`, if there is one.
    pub open spec fn user(self, public_key: Seq<char>) -> Option<UserInfoView> {
        if self.users.dom().contains(public_key) {
            Some(self.users[public_key])
        } else {
            None
        }
    }

    /// The account that registration creates.
    pub open spec fn new_user(
        public_key: Seq<char>,
        name: Seq<char>,
        role: Seq<char>,
        municipio: Seq<char>,
    ) -> UserInfoView {
        UserInfoView {
            public_key,
            name,
            role,
            municipio,
            verification_status: VerificationStatus::Unverified,
            balance: 0,
            co2_saved: 0,
            total_actions: 0,
        }
    }

    /// The state with `user` stored under its public key, in place of any
    /// account that was there.
    pub open spec fn with_user(self, user: UserInfoView) -> EcoPradoState {
        EcoPradoState { users: self.users.insert(user.public_key, user), ..self }
    }

    /// The state after a verification request for `id_number` was found
    /// valid or not: a valid one marks the account under that identifier, if
    /// there is one, as verified; nothing else changes.
    pub open spec fn after_verification(self, id_number: Seq<char>, valid: bool) -> EcoPradoState {
        if valid && self.users.dom().contains(id_number) {
            self.with_user(
                UserInfoView {
                    verification_status: VerificationStatus::Verified,
                    ..self.users[id_number]
                },
            )
        } else {
            self
        }
    }

    /// The state after the account under `public_key`, if there is one, was
    /// credited with one action's reward and CO2.
    pub open spec fn credited(
        self,
        public_key: Seq<char>,
        reward_amount: int,
        co2_saved: int,
    ) -> EcoPradoState {
        if self.users.dom().contains(public_key) {
            let user = self.users[public_key];
            EcoPradoState {
                users: self.users.insert(
                    public_key,
                    UserInfoView {
                        balance: user.balance + reward_amount,
                        co2_saved: user.co2_saved + co2_saved,
                        total_actions: user.total_actions + 1,
                        ..user
                    },
                ),
                ..self
            }
        } else {
            self
        }
    }

    /// The record that a report creates in this state: it gets the next
    /// number, the amounts of the reward table, and is completed at once.
    pub open spec fn reported(
        self,
        user_public_key: Seq<char>,
        action_type: Seq<char>,
        description: Seq<char>,
        evidence: Seq<char>,
        now: nat,
    ) -> ActionView {
        ActionView {
            id: self.action_id + 1,
            user_public_key,
            action_type,
            description,
            evidence,
            reward_amount: action_reward(action_type),
            co2_saved: action_co2(action_type),
            status: ActionStatus::Completed,
            created_at: now,
        }
    }

    /// The state after `action` was reported: the counter has issued its
    /// number, the log holds it, and its user, if registered, is credited.
    pub open spec fn after_report(self, action: ActionView) -> EcoPradoState {
        EcoPradoState {
            actions: self.actions.insert(action.id, action),
            action_id: action.id,
            ..self
        }.credited(action.user_public_key, action.reward_amount, action.co2_saved)
    }

    /// `gap` is the first number, counted from 1, that holds no record.
    pub open spec fn is_first_gap(self, gap: nat) -> bool {
        &&& gap >= 1
        &&& !self.actions.dom().contains(gap)
        &&& forall|id: nat| 1 <= id < gap ==> self.actions.dom().contains(id)
    }

    /// The first number, counted from 1, that holds no record.
    pub open spec fn first_gap(self) -> nat {
        choose|gap: nat| self.is_first_gap(gap)
    }

    /// The records under the numbers 1 to `end - 1`, in that order.
    pub open spec fn log_before(self, end: nat) -> Seq<ActionView> {
        Seq::new((end - 1) as nat, |i: int| self.actions[(i + 1) as nat])
    }

    /// The actions of `user` among the records under the numbers 1 to
    /// `end - 1`, in the order of their numbers.
    pub open spec fn visible_before(self, user: Seq<char>, end: nat) -> Seq<ActionView> {
        self.log_before(end).filter(reported_by(user))
    }

    /// The actions of `user` that a scan sees which starts at number 1, goes
    /// up by one and stops at the first number that holds no record: the
    /// actions of `user` below the first gap, in the order of their numbers.
    pub open spec fn visible_actions(self, user: Seq<char>) -> Seq<ActionView> {
        self.visible_before(user, self.first_gap())
    }

    /// The accounts of `municipio` among the first `n` known users, in the
    /// order of the known users.
    pub open spec fn ranking_of_first(self, municipio: Seq<char>, n: nat) -> Seq<UserInfoView>
        decreases n,
    {
        if n == 0 {
            Seq::empty()
        } else {
            let before = self.ranking_of_first(municipio, (n - 1) as nat);
            let key = known_users()[n - 1];
            if n <= known_users().len() && self.users.dom().contains(key)
                && self.users[key].municipio == municipio {
                before.push(self.users[key])
            } else {
                before
            }
        }
    }

    /// The ranking of `municipio`: the accounts of the known users that
    /// belong to it, in the order of the known users.
    pub open spec fn ranking(self, municipio: Seq<char>) -> Seq<UserInfoView> {
        self.ranking_of_first(municipio, known_users().len())
    }
}

/// What one report of an action brings with it.
pub struct ReportCall {
    pub user_public_key: Seq<char>,
    pub action_type: Seq<char>,
    pub description: Seq<char>,
    pub evidence: Seq<char>,
    pub now: nat,
}

impl EcoPradoState {
    /// The record that `call` creates in this state.
    pub open spec fn record_of(self, call: ReportCall) -> ActionView {
        self.reported(
            call.user_public_key,
            call.action_type,
            call.description,
            call.evidence,
            call.now,
        )
    }

    /// The state after `call`.
    pub open spec fn report(self, call: ReportCall) -> EcoPradoState {
        self.after_report(self.record_of(call))
    }

    /// The state after all of `calls`, made in their order.
    pub open spec fn after_reports(self, calls: Seq<ReportCall>) -> EcoPradoState
        decreases calls.len(),
    {
        if calls.len() == 0 {
            self
        } else {
            self.after_reports(calls.drop_last()).report(calls.last())
        }
    }

    /// Only one number can be the first gap.
    pub proof fn lemma_first_gap_is(self, gap: nat)
        requires
            self.is_first_gap(gap),
        ensures
            self.first_gap() == gap,
    {
    }

    /// A consistent state has a first gap, and it is no later than the number
    /// after the last one issued.
    pub proof fn lemma_first_gap_exists(self)
        requires
            self.wf(),
        ensures
            self.is_first_gap(self.first_gap()),
            1 <= self.first_gap() <= self.action_id + 1,
    {
        self.lemma_gap_from(1);
    }

    proof fn lemma_gap_from(self, start: nat)
        requires
            self.wf(),
            1 <= start <= self.action_id + 1,
            forall|id: nat| 1 <= id < start ==> self.actions.dom().contains(id),
        ensures
            self.is_first_gap(self.first_gap()),
            start <= self.first_gap() <= self.action_id + 1,
        decreases self.action_id + 1 - start,
    {
        if self.actions.dom().contains(start) {
            self.lemma_gap_from(start + 1);
        } else {
            self.lemma_first_gap_is(start);
        }
    }

    /// One more number under the scan adds its record where that is an
    /// action of `user`, and nothing else.
    pub proof fn lemma_visible_step(self, user: Seq<char>, end: nat)
        requires
            end >= 1,
        ensures
            self.visible_before(user, end + 1) == if self.actions[end].user_public_key == user {
                self.visible_before(user, end).push(self.actions[end])
            } else {
                self.visible_before(user, end)
            },
    {
        reveal(Seq::filter);
        let longer = self.log_before(end + 1);
        assert(longer.drop_last() =~= self.log_before(end));
    }

    /// Each action that the scan has seen before `end` is an action of
    /// `user`, in the log under its own number, which is below `end`.
    pub proof fn lemma_visible_is_logged(self, user: Seq<char>, end: nat, i: int)
        requires
            self.wf(),
            1 <= end,
            forall|id: nat| 1 <= id < end ==> self.actions.dom().contains(id),
            0 <= i < self.visible_before(user, end).len(),
        ensures
            1 <= self.visible_before(user, end)[i].id < end,
            self.visible_before(user, end)[i].user_public_key == user,
            self.actions.dom().contains(self.visible_before(user, end)[i].id),
            self.actions[self.visible_before(user, end)[i].id] == self.visible_before(user, end)[i],
    {
        let log = self.log_before(end);
        let seen = self.visible_before(user, end);
        log.lemma_filter_pred(reported_by(user), i);
        log.lemma_filter_contains_rev(reported_by(user), seen[i]);
        let at = choose|at: int| 0 <= at < log.len() && log[at] == seen[i];
        assert(self.actions.dom().contains((at + 1) as nat));
    }

    /// A number that holds no record hides every action from it on: the scan
    /// sees only actions with smaller numbers, each of them an action of the
    /// user asked for, in the log under its number.
    pub proof fn lemma_visible_stop_at_gap(self, user: Seq<char>, missing: nat, i: int)
        requires
            self.wf(),
            missing >= 1,
            !self.actions.dom().contains(missing),
            0 <= i < self.visible_actions(user).len(),
        ensures
            1 <= self.visible_actions(user)[i].id < missing,
            self.visible_actions(user)[i].user_public_key == user,
            self.actions.dom().contains(self.visible_actions(user)[i].id),
            self.actions[self.visible_actions(user)[i].id] == self.visible_actions(user)[i],
    {
        self.lemma_first_gap_exists();
        self.lemma_visible_is_logged(user, self.first_gap(), i);
    }

    /// Every action of `user` that lies below the first gap is seen.
    pub proof fn lemma_visible_complete(self, user: Seq<char>, id: nat)
        requires
            self.wf(),
            1 <= id < self.first_gap(),
            self.actions[id].user_public_key == user,
        ensures
            self.visible_actions(user).contains(self.actions[id]),
    {
        let log = self.log_before(self.first_gap());
        log.lemma_filter_contains(reported_by(user), id - 1);
    }

    /// The actions seen come in the order of their numbers.
    pub proof fn lemma_visible_in_order(self, user: Seq<char>, i: int, j: int)
        requires
            self.wf(),
            0 <= i < j < self.visible_actions(user).len(),
        ensures
            self.visible_actions(user)[i].id < self.visible_actions(user)[j].id,
    {
        self.lemma_first_gap_exists();
        self.lemma_visible_sorted(user, self.first_gap(), i, j);
    }

    proof fn lemma_visible_sorted(self, user: Seq<char>, end: nat, i: int, j: int)
        requires
            self.wf(),
            1 <= end,
            forall|id: nat| 1 <= id < end ==> self.actions.dom().contains(id),
            0 <= i < j < self.visible_before(user, end).len(),
        ensures
            self.visible_before(user, end)[i].id < self.visible_before(user, end)[j].id,
        decreases end,
    {
        if end == 1 {
            self.log_before(end).lemma_filter_len(reported_by(user));
        } else {
            let shorter = (end - 1) as nat;
            let before = self.visible_before(user, shorter);
            self.lemma_visible_step(user, shorter);
            if j < before.len() {
                self.lemma_visible_sorted(user, shorter, i, j);
            } else {
                assert(self.actions.dom().contains(shorter));
                self.lemma_visible_is_logged(user, shorter, i);
            }
        }
    }

    /// A report keeps a consistent state consistent.
    pub proof fn lemma_report_wf(self, call: ReportCall)
        requires
            self.wf(),
            self.action_id < u32::MAX,
        ensures
            self.report(call).wf(),
    {
        crate::rewards::lemma_action_amounts_bounded(call.action_type);
    }

    /// A report deletes no account and takes nothing from one: every account
    /// stays under its key, and its balance, its CO2 and its count of actions
    /// do not go down. Nothing but these three changes in it.
    pub proof fn lemma_report_only_adds(self, call: ReportCall, key: Seq<char>)
        requires
            self.wf(),
            self.users.dom().contains(key),
        ensures
            self.report(call).users.dom() == self.users.dom(),
            self.report(call).users[key].balance >= self.users[key].balance,
            self.report(call).users[key].co2_saved >= self.users[key].co2_saved,
            self.report(call).users[key].total_actions >= self.users[key].total_actions,
            self.report(call).users[key] == (UserInfoView {
                balance: self.report(call).users[key].balance,
                co2_saved: self.report(call).users[key].co2_saved,
                total_actions: self.report(call).users[key].total_actions,
                ..self.users[key]
            }),
    {
        crate::rewards::lemma_action_amounts_bounded(call.action_type);
    }

    /// A verification deletes no account and changes nothing in one but its
    /// verification status, which it can only set to verified.
    pub proof fn lemma_verification_only_verifies(
        self,
        id_number: Seq<char>,
        valid: bool,
        key: Seq<char>,
    )
        requires
            self.wf(),
            self.users.dom().contains(key),
        ensures
            self.after_verification(id_number, valid).wf(),
            self.after_verification(id_number, valid).users.dom() == self.users.dom(),
            self.after_verification(id_number, valid).users[key] == self.users[key]
                || self.after_verification(id_number, valid).users[key] == (UserInfoView {
                verification_status: VerificationStatus::Verified,
                ..self.users[key]
            }),
            self.after_verification(id_number, valid).actions == self.actions,
            self.after_verification(id_number, valid).action_id == self.action_id,
    {
    }

    /// The call in place `k` of `calls` got the number `action_id + k + 1`,
    /// and after all the calls its record is in the log under that number.
    pub open spec fn call_logged(self, calls: Seq<ReportCall>, k: int) -> bool {
        let id = (self.action_id + k + 1) as nat;
        let record = self.after_reports(calls.take(k)).record_of(calls[k]);
        let end = self.after_reports(calls);
        &&& record.id == id
        &&& end.actions.dom().contains(id)
        &&& end.actions[id] == record
    }

    /// Action numbers are issued in sequence, without gaps and without reuse.
    /// After any calls the counter has advanced by their count; the call in
    /// place `k` got the number `action_id + k + 1` and its record is in the
    /// log under that number; every record that was in the log before is
    /// still there, unchanged; and the log holds nothing else.
    pub proof fn lemma_report_numbers(self, calls: Seq<ReportCall>)
        requires
            self.wf(),
            self.action_id + calls.len() <= u32::MAX,
        ensures
            ({
                let end = self.after_reports(calls);
                &&& end.wf()
                &&& end.action_id == self.action_id + calls.len()
                &&& forall|k: int| 0 <= k < calls.len() ==> #[trigger] self.call_logged(calls, k)
                &&& forall|id: nat| #[trigger]
                    self.actions.dom().contains(id) ==> end.actions.dom().contains(id)
                        && end.actions[id] == self.actions[id]
                &&& forall|id: nat| #[trigger]
                    end.actions.dom().contains(id) ==> self.actions.dom().contains(id)
                        || self.action_id < id <= end.action_id
            }),
        decreases calls.len(),
    {
        if calls.len() > 0 {
            let earlier = calls.drop_last();
            let before = self.after_reports(earlier);
            self.lemma_report_numbers(earlier);
            before.lemma_report_wf(calls.last());
            assert forall|k: int| 0 <= k < calls.len() implies #[trigger] self.call_logged(
                calls,
                k,
            ) by {
                if k < earlier.len() {
                    assert(earlier.take(k) =~= calls.take(k));
                    assert(self.call_logged(earlier, k));
                }
            }
        }
    }

    /// From initialisation on the numbers are 1, 2, 3, ...: after `n` reports
    /// the log holds exactly the numbers 1 to `n`.
    pub proof fn lemma_numbers_from_one(admin: Seq<char>, calls: Seq<ReportCall>)
        requires
            calls.len() <= u32::MAX,
        ensures
            Self::fresh(admin).after_reports(calls).action_id == calls.len(),
            forall|id: nat|
                Self::fresh(admin).after_reports(calls).actions.dom().contains(id) <==> 1 <= id
                    <= calls.len(),
            Self::fresh(admin).after_reports(calls).first_gap() == calls.len() + 1,
    {
        let start = Self::fresh(admin);
        start.lemma_report_numbers(calls);
        let end = start.after_reports(calls);
        assert forall|id: nat| 1 <= id <= calls.len() implies end.actions.dom().contains(id) by {
            assert(start.call_logged(calls, id - 1));
        }
        end.lemma_first_gap_is((calls.len() + 1) as nat);
    }
}

} // verus!
