//! The mathematical state of the token ledger and what each operation makes
//! of it: a balance per address, the total supply, and the log of
//! redemptions.

use vstd::prelude::*;
use crate::journal::filled;
use crate::rewards::eco_reward;
use crate::store::{distinct_entries, lemma_map_of_finite, lemma_map_of_keys, map_of};
use crate::sums::{
    amount_of, lemma_amount_within_total, lemma_total_insert, none_negative, total,
};

verus! {

/// What a `Redemption` stands for.
pub struct RedemptionView {
    pub id: nat,
    pub user: Seq<char>,
    pub business: Seq<char>,
    pub amount: int,
    pub timestamp: nat,
}

/// State of the token ledger.
pub struct TokenState {
    pub admin: Seq<char>,
    pub name: Seq<char>,
    pub symbol: Seq<char>,
    pub decimals: nat,
    pub total_supply: int,
    /// address -> balance; an address that is not a key holds nothing
    pub balances: Map<Seq<char>, int>,
    /// number -> redemption
    pub redemptions: Map<nat, RedemptionView>,
    /// the last redemption number issued
    pub redemption_id: nat,
}

/// The supply that a new ledger starts with.
pub const INITIAL_SUPPLY: i128 = 1_000_000;

/// The number of decimals of the token.
pub const TOKEN_DECIMALS: u32 = 7;

/// The supply that a new ledger starts with.
pub open spec fn initial_supply() -> int {
    INITIAL_SUPPLY as int
}

/// The number of decimals of the token.
pub open spec fn token_decimals() -> nat {
    TOKEN_DECIMALS as nat
}

/// One more entry of a list without a key twice adds its amount to the sum.
pub proof fn lemma_total_extend(entries: Seq<(Seq<char>, int)>, n: int)
    requires
        distinct_entries(entries),
        0 <= n < entries.len(),
    ensures
        !map_of(entries.take(n)).dom().contains(entries[n].0),
        map_of(entries.take(n + 1)) == map_of(entries.take(n)).insert(entries[n].0, entries[n].1),
        total(map_of(entries.take(n + 1))) == total(map_of(entries.take(n))) + entries[n].1,
{
    let shorter = entries.take(n);
    let longer = entries.take(n + 1);
    assert(longer.drop_last() =~= shorter);
    if map_of(shorter).dom().contains(entries[n].0) {
        lemma_map_of_keys(shorter, entries[n].0);
    }
    lemma_map_of_finite(shorter);
    lemma_total_insert(map_of(shorter), entries[n].0, entries[n].1);
}

/// Where no amount of a list without a key twice is negative, the sum of a
/// part of the list does not exceed the sum of the whole.
pub proof fn lemma_total_of_part(entries: Seq<(Seq<char>, int)>, n: int)
    requires
        distinct_entries(entries),
        forall|i: int| 0 <= i < entries.len() ==> entries[i].1 >= 0,
        0 <= n <= entries.len(),
    ensures
        total(map_of(entries.take(n))) <= total(map_of(entries)),
    decreases entries.len() - n,
{
    if n < entries.len() {
        lemma_total_extend(entries, n);
        lemma_total_of_part(entries, n + 1);
    } else {
        assert(entries.take(n) =~= entries);
    }
}

impl TokenState {
    /// The ledger that holds the listed balances and, under number `i + 1`,
    /// what place `i` of `redemptions` holds; it has issued as many numbers
    /// as `redemptions` has places.
    pub open spec fn assembled(
        admin: Seq<char>,
        name: Seq<char>,
        symbol: Seq<char>,
        total_supply: int,
        balances: Seq<(Seq<char>, int)>,
        redemptions: Seq<Option<RedemptionView>>,
    ) -> TokenState {
        TokenState {
            admin,
            name,
            symbol,
            decimals: token_decimals(),
            total_supply,
            balances: map_of(balances),
            redemptions: filled(redemptions),
            redemption_id: redemptions.len(),
        }
    }

    /// The ledger after initialisation: the initial supply, all of it held by
    /// the administrator, and no redemption.
    pub open spec fn fresh(admin: Seq<char>, name: Seq<char>, symbol: Seq<char>) -> TokenState {
        TokenState {
            admin,
            name,
            symbol,
            decimals: token_decimals(),
            total_supply: initial_supply(),
            balances: Map::empty().insert(admin, initial_supply()),
            redemptions: Map::empty(),
            redemption_id: 0,
        }
    }

    /// The balance of `address`.
    pub open spec fn balance_of(self, address: Seq<char>) -> int {
        amount_of(self.balances, address)
    }

    /// The sum of all balances.
    pub open spec fn circulating(self) -> int {
        total(self.balances)
    }

    /// The total supply is the sum of all balances.
    pub open spec fn conserved(self) -> bool {
        self.total_supply == self.circulating()
    }

    /// The ledger is consistent: finitely many balances, none negative, their
    /// sum the total supply; each redemption under its own number, for a
    /// positive amount, and none under a number that was not issued.
    pub open spec fn wf(self) -> bool {
        &&& self.balances.dom().finite()
        &&& none_negative(self.balances)
        &&& self.conserved()
        &&& self.total_supply <= i128::MAX
        &&& self.decimals == token_decimals()
        &&& self.redemption_id <= u32::MAX
        &&& forall|id: nat| #[trigger]
            self.redemptions.dom().contains(id) ==> {
                &&& 1 <= id <= self.redemption_id
                &&& self.redemptions[id].id == id
                &&& self.redemptions[id].amount > 0
            }
    }

    /// The ledger with the balance of `address` set to `amount`.
    pub open spec fn with_balance(self, address: Seq<char>, amount: int) -> TokenState {
        TokenState { balances: self.balances.insert(address, amount), ..self }
    }

    /// `amount` can be minted: it is not negative and the supply has room.
    pub open spec fn can_mint(self, amount: int) -> bool {
        0 <= amount && self.total_supply + amount <= i128::MAX
    }

    /// The ledger after a mint of `amount` to `to`.
    pub open spec fn after_mint(self, to: Seq<char>, amount: int) -> TokenState {
        if self.can_mint(amount) {
            TokenState {
                total_supply: self.total_supply + amount,
                ..self.with_balance(to, self.balance_of(to) + amount)
            }
        } else {
            self
        }
    }

    /// `amount` can be taken from `from`: it is not negative and `from` holds
    /// as much.
    pub open spec fn can_take(self, from: Seq<char>, amount: int) -> bool {
        0 <= amount <= self.balance_of(from)
    }

    /// The ledger after `amount` of the balance of `from` was burnt.
    pub open spec fn after_burn(self, from: Seq<char>, amount: int) -> TokenState {
        if self.can_take(from, amount) {
            TokenState {
                total_supply: self.total_supply - amount,
                ..self.with_balance(from, self.balance_of(from) - amount)
            }
        } else {
            self
        }
    }

    /// The ledger after a transfer of `amount` from `from` to `to`: `from`
    /// is debited, then `to` is credited.
    pub open spec fn after_transfer(
        self,
        from: Seq<char>,
        to: Seq<char>,
        amount: int,
    ) -> TokenState {
        if self.can_take(from, amount) {
            let debited = self.with_balance(from, self.balance_of(from) - amount);
            debited.with_balance(to, debited.balance_of(to) + amount)
        } else {
            self
        }
    }

    /// The ledger after the reward for an ecological action of the given
    /// kind was minted to `user`.
    pub open spec fn after_reward(self, user: Seq<char>, action_type: Seq<char>) -> TokenState {
        self.after_mint(user, eco_reward(action_type))
    }

    /// `user` can redeem `amount`: it is positive, `user` holds as much, and
    /// a redemption number is left.
    pub open spec fn can_redeem(self, user: Seq<char>, amount: int) -> bool {
        0 < amount <= self.balance_of(user) && self.redemption_id < u32::MAX
    }

    /// The record of a redemption made in this state.
    pub open spec fn redemption(
        self,
        user: Seq<char>,
        amount: int,
        business: Seq<char>,
        now: nat,
    ) -> RedemptionView {
        RedemptionView { id: self.redemption_id + 1, user, business, amount, timestamp: now }
    }

    /// The ledger after `user` redeemed `amount` at `business`: the amount
    /// is burnt and the redemption is logged under the next number.
    pub open spec fn after_redeem(
        self,
        user: Seq<char>,
        amount: int,
        business: Seq<char>,
        now: nat,
    ) -> TokenState {
        if self.can_redeem(user, amount) {
            let record = self.redemption(user, amount, business, now);
            TokenState {
                redemptions: self.redemptions.insert(record.id, record),
                redemption_id: record.id,
                ..self.after_burn(user, amount)
            }
        } else {
            self
        }
    }

    /// A new ledger is consistent.
    pub proof fn lemma_fresh_wf(admin: Seq<char>, name: Seq<char>, symbol: Seq<char>)
        ensures
            Self::fresh(admin, name, symbol).wf(),
    {
        let empty = Map::<Seq<char>, int>::empty();
        lemma_total_insert(empty, admin, initial_supply());
    }

    /// No balance exceeds the total supply of a consistent ledger.
    pub proof fn lemma_balance_within_supply(self, address: Seq<char>)
        requires
            self.wf(),
        ensures
            0 <= self.balance_of(address) <= self.total_supply,
    {
        lemma_amount_within_total(self.balances, address);
    }

    /// Setting one balance moves the sum of all balances by the difference.
    pub proof fn lemma_with_balance(self, address: Seq<char>, amount: int)
        requires
            self.balances.dom().finite(),
        ensures
            self.with_balance(address, amount).balances.dom().finite(),
            self.with_balance(address, amount).circulating() == self.circulating()
                - self.balance_of(address) + amount,
            none_negative(self.balances) && amount >= 0 ==> none_negative(
                self.with_balance(address, amount).balances,
            ),
    {
        lemma_total_insert(self.balances, address, amount);
    }

    /// A mint keeps a consistent ledger consistent.
    pub proof fn lemma_mint_wf(self, to: Seq<char>, amount: int)
        requires
            self.wf(),
        ensures
            self.after_mint(to, amount).wf(),
    {
        if self.can_mint(amount) {
            self.lemma_with_balance(to, self.balance_of(to) + amount);
        }
    }

    /// A burn keeps a consistent ledger consistent.
    pub proof fn lemma_burn_wf(self, from: Seq<char>, amount: int)
        requires
            self.wf(),
        ensures
            self.after_burn(from, amount).wf(),
    {
        if self.can_take(from, amount) {
            self.lemma_with_balance(from, self.balance_of(from) - amount);
        }
    }

    /// A transfer keeps a consistent ledger consistent, and leaves the total
    /// supply as it was.
    pub proof fn lemma_transfer_wf(self, from: Seq<char>, to: Seq<char>, amount: int)
        requires
            self.wf(),
        ensures
            self.after_transfer(from, to, amount).wf(),
            self.after_transfer(from, to, amount).total_supply == self.total_supply,
    {
        if self.can_take(from, amount) {
            let debited = self.with_balance(from, self.balance_of(from) - amount);
            self.lemma_with_balance(from, self.balance_of(from) - amount);
            lemma_amount_within_total(debited.balances, to);
            debited.lemma_with_balance(to, debited.balance_of(to) + amount);
        }
    }

    /// A redemption keeps a consistent ledger consistent.
    pub proof fn lemma_redeem_wf(
        self,
        user: Seq<char>,
        amount: int,
        business: Seq<char>,
        now: nat,
    )
        requires
            self.wf(),
        ensures
            self.after_redeem(user, amount, business, now).wf(),
    {
        self.lemma_burn_wf(user, amount);
    }
}

/// A call of one of the operations that change the ledger.
pub enum TokenCall {
    Transfer { from: Seq<char>, to: Seq<char>, amount: int },
    Mint { to: Seq<char>, amount: int },
    Burn { from: Seq<char>, amount: int },
    Reward { user: Seq<char>, action_type: Seq<char> },
    Redeem { user: Seq<char>, amount: int, business: Seq<char>, now: nat },
}

impl TokenState {
    /// The ledger after `call`, which was authorised or not. A call that was
    /// not authorised changes nothing.
    pub open spec fn step(self, call: TokenCall, authorized: bool) -> TokenState {
        if !authorized {
            self
        } else {
            match call {
                TokenCall::Transfer { from, to, amount } => self.after_transfer(from, to, amount),
                TokenCall::Mint { to, amount } => self.after_mint(to, amount),
                TokenCall::Burn { from, amount } => self.after_burn(from, amount),
                TokenCall::Reward { user, action_type } => self.after_reward(user, action_type),
                TokenCall::Redeem { user, amount, business, now } => self.after_redeem(
                    user,
                    amount,
                    business,
                    now,
                ),
            }
        }
    }

    /// The ledger after all of `calls`, made in their order.
    pub open spec fn run(self, calls: Seq<(TokenCall, bool)>) -> TokenState
        decreases calls.len(),
    {
        if calls.len() == 0 {
            self
        } else {
            self.run(calls.drop_last()).step(calls.last().0, calls.last().1)
        }
    }

    /// One call keeps a consistent ledger consistent.
    pub proof fn lemma_step_wf(self, call: TokenCall, authorized: bool)
        requires
            self.wf(),
        ensures
            self.step(call, authorized).wf(),
    {
        if authorized {
            match call {
                TokenCall::Transfer { from, to, amount } => self.lemma_transfer_wf(
                    from,
                    to,
                    amount,
                ),
                TokenCall::Mint { to, amount } => self.lemma_mint_wf(to, amount),
                TokenCall::Burn { from, amount } => self.lemma_burn_wf(from, amount),
                TokenCall::Reward { user, action_type } => self.lemma_mint_wf(
                    user,
                    eco_reward(action_type),
                ),
                TokenCall::Redeem { user, amount, business, now } => self.lemma_redeem_wf(
                    user,
                    amount,
                    business,
                    now,
                ),
            }
        }
    }

    /// Conservation: whatever calls are made on a consistent ledger, after
    /// each of them the total supply is the sum of all balances and no
    /// balance is negative.
    pub proof fn lemma_supply_conserved(self, calls: Seq<(TokenCall, bool)>, n: int)
        requires
            self.wf(),
            0 <= n <= calls.len(),
        ensures
            self.run(calls.take(n)).wf(),
            self.run(calls.take(n)).total_supply == self.run(calls.take(n)).circulating(),
            forall|address: Seq<char>| self.run(calls.take(n)).balance_of(address) >= 0,
        decreases n,
    {
        if n > 0 {
            self.lemma_supply_conserved(calls, n - 1);
            assert(calls.take(n).drop_last() =~= calls.take(n - 1));
            self.run(calls.take(n - 1)).lemma_step_wf(calls[n - 1].0, calls[n - 1].1);
        }
    }

    /// A transfer of more than `from` holds changes nothing.
    pub proof fn lemma_transfer_beyond_balance(self, from: Seq<char>, to: Seq<char>, amount: int)
        requires
            self.balance_of(from) < amount,
        ensures
            !self.can_take(from, amount),
            self.after_transfer(from, to, amount) == self,
    {
    }

    /// A redemption that takes place is logged under the next number, and
    /// every redemption logged before stays as it was. One that does not take
    /// place changes nothing.
    pub proof fn lemma_redeem_appends(
        self,
        user: Seq<char>,
        amount: int,
        business: Seq<char>,
        now: nat,
    )
        requires
            self.wf(),
        ensures
            self.can_redeem(user, amount) ==> {
                let after = self.after_redeem(user, amount, business, now);
                &&& after.redemption_id == self.redemption_id + 1
                &&& after.redemptions.dom() == self.redemptions.dom().insert(after.redemption_id)
                &&& after.redemptions[after.redemption_id] == (RedemptionView {
                    id: after.redemption_id,
                    user,
                    business,
                    amount,
                    timestamp: now,
                })
                &&& forall|id: nat| #[trigger]
                    self.redemptions.dom().contains(id) ==> after.redemptions[id]
                        == self.redemptions[id]
                &&& after.balance_of(user) == self.balance_of(user) - amount
                &&& after.total_supply == self.total_supply - amount
            },
            !self.can_redeem(user, amount) ==> self.after_redeem(user, amount, business, now)
                == self,
    {
    }

    /// Transfers, mints, burns and rewards leave the log of redemptions as it
    /// is.
    pub proof fn lemma_redemptions_untouched(self, call: TokenCall, authorized: bool)
        requires
            !(call is Redeem),
        ensures
            self.step(call, authorized).redemptions == self.redemptions,
            self.step(call, authorized).redemption_id == self.redemption_id,
    {
    }

    /// What a transfer does to each balance: the balance of `from` goes down
    /// by `amount`, that of `to` goes up by it, and where the two are one
    /// address nothing moves; no other balance changes.
    pub proof fn lemma_transfer_balances(
        self,
        from: Seq<char>,
        to: Seq<char>,
        amount: int,
        address: Seq<char>,
    )
        requires
            self.can_take(from, amount),
        ensures
            self.after_transfer(from, to, amount).balance_of(address) == self.balance_of(address)
                - (if address == from {
                amount
            } else {
                0
            }) + (if address == to {
                amount
            } else {
                0
            }),
    {
    }

    /// What a mint does to each balance: the balance of `to` goes up by
    /// `amount`; no other balance changes.
    pub proof fn lemma_mint_balances(self, to: Seq<char>, amount: int, address: Seq<char>)
        requires
            self.can_mint(amount),
        ensures
            self.after_mint(to, amount).balance_of(address) == self.balance_of(address) + (if to
                == address {
                amount
            } else {
                0
            }),
            self.after_mint(to, amount).total_supply == self.total_supply + amount,
    {
    }

    /// What a burn does to each balance: the balance of `from` goes down by
    /// `amount`; no other balance changes.
    pub proof fn lemma_burn_balances(self, from: Seq<char>, amount: int, address: Seq<char>)
        requires
            self.can_take(from, amount),
        ensures
            self.after_burn(from, amount).balance_of(address) == self.balance_of(address) - (if from
                == address {
                amount
            } else {
                0
            }),
            self.after_burn(from, amount).total_supply == self.total_supply - amount,
    {
    }
}

} // verus!
