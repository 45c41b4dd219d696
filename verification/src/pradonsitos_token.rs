//! The ledger of the reward token: balances, total supply, mint, burn,
//! transfer, rewards for ecological actions and redemptions at businesses.

use vstd::prelude::*;
use vstd::string::*;
use crate::auth::{AuthorizationError, Authorizer};
use crate::journal::{filled, Journal};
use crate::rewards::eco_reward;
use crate::store::{
    distinct_entries, lemma_map_of_holds, lemma_map_of_keys, map_of, Store,
};
use crate::sums::total;
use crate::text::same_text;
use crate::token_model::{
    lemma_total_extend, lemma_total_of_part, RedemptionView, TokenState, INITIAL_SUPPLY,
    TOKEN_DECIMALS,
};

verus! {

/// One exchange of tokens for value at a business, kept under its number.
#[derive(Debug, PartialEq, Eq)]
pub struct Redemption {
    pub id: u32,
    pub user: String,
    pub business: String,
    pub amount: i128,
    pub timestamp: u64,
}

impl View for Redemption {
    type V = RedemptionView;

    open spec fn view(&self) -> RedemptionView {
        RedemptionView {
            id: self.id as nat,
            user: self.user@,
            business: self.business@,
            amount: self.amount as int,
            timestamp: self.timestamp as nat,
        }
    }
}

impl Clone for Redemption {
    fn clone(&self) -> (copy: Self)
        ensures
            copy == *self,
    {
        Redemption {
            id: self.id,
            user: self.user.clone(),
            business: self.business.clone(),
            amount: self.amount,
            timestamp: self.timestamp,
        }
    }
}

/// The balances that a map of stored amounts stands for.
pub open spec fn balance_map(amounts: Map<Seq<char>, i128>) -> Map<Seq<char>, int> {
    Map::new(
        |address: Seq<char>| amounts.dom().contains(address),
        |address: Seq<char>| amounts[address] as int,
    )
}

/// The redemptions that a map of stored redemptions stands for.
pub open spec fn redemption_map(redemptions: Map<nat, Redemption>) -> Map<nat, RedemptionView> {
    Map::new(|id: nat| redemptions.dom().contains(id), |id: nat| redemptions[id]@)
}

/// The views of a list of addresses with their balances, in the same order.
pub open spec fn balance_entries(list: Seq<(String, i128)>) -> Seq<(Seq<char>, int)> {
    list.map_values(|entry: (String, i128)| (entry.0@, entry.1 as int))
}

/// The view of what one redemption number holds.
pub open spec fn redemption_slot_view(slot: Option<Redemption>) -> Option<RedemptionView> {
    match slot {
        Some(redemption) => Some(redemption@),
        None => None,
    }
}

/// The views of what a run of redemption numbers holds, in the same order.
pub open spec fn redemption_slot_views(slots: Seq<Option<Redemption>>) -> Seq<
    Option<RedemptionView>,
> {
    slots.map_values(|slot: Option<Redemption>| redemption_slot_view(slot))
}

/// The token ledger with all that it has stored.
#[derive(Debug)]
pub struct PradonsitosToken {
    admin: String,
    name: String,
    symbol: String,
    decimals: u32,
    total_supply: i128,
    balances: Store<i128>,
    redemptions: Journal<Redemption>,
}

impl View for PradonsitosToken {
    type V = TokenState;

    closed spec fn view(&self) -> TokenState {
        TokenState {
            admin: self.admin@,
            name: self.name@,
            symbol: self.symbol@,
            decimals: self.decimals as nat,
            total_supply: self.total_supply as int,
            balances: balance_map(self.balances@),
            redemptions: redemption_map(self.redemptions.records()),
            redemption_id: self.redemptions.issued(),
        }
    }
}

impl PradonsitosToken {
    /// The stores are sound.
    pub closed spec fn inv(&self) -> bool {
        &&& self.balances.inv()
        &&& self.redemptions.inv()
    }

    /// The ledger is in a consistent state.
    pub open spec fn wf(&self) -> bool {
        &&& self.inv()
        &&& self@.wf()
    }

    /// The ledger after initialisation: `admin` administers it and holds the
    /// initial supply.
    pub fn initialize(admin: String, name: String, symbol: String) -> (token: Self)
        ensures
            token.wf(),
            token@ == TokenState::fresh(admin@, name@, symbol@),
    {
        let mut balances: Store<i128> = Store::new();
        balances.set(admin.as_str(), INITIAL_SUPPLY);
        let token = PradonsitosToken {
            admin,
            name,
            symbol,
            decimals: TOKEN_DECIMALS,
            total_supply: INITIAL_SUPPLY,
            balances,
            redemptions: Journal::new(),
        };
        proof {
            TokenState::lemma_fresh_wf(admin@, name@, symbol@);
            assert(token@.balances =~= TokenState::fresh(admin@, name@, symbol@).balances);
            assert(token@.redemptions =~= Map::empty());
        }
        token
    }

    /// The name of the token.
    pub fn name(&self) -> (name: String)
        ensures
            name@ == self@.name,
    {
        self.name.clone()
    }

    /// The symbol of the token.
    pub fn symbol(&self) -> (symbol: String)
        ensures
            symbol@ == self@.symbol,
    {
        self.symbol.clone()
    }

    /// The number of decimals of the token.
    pub fn decimals(&self) -> (decimals: u32)
        ensures
            decimals == self@.decimals,
    {
        self.decimals
    }

    /// The total supply.
    pub fn total_supply(&self) -> (supply: i128)
        ensures
            supply == self@.total_supply,
    {
        self.total_supply
    }

    /// The balance of `address`, 0 where the ledger holds none for it.
    pub fn balance_of(&self, address: &str) -> (balance: i128)
        requires
            self.wf(),
        ensures
            balance == self@.balance_of(address@),
    {
        self.stored_balance(address)
    }

    fn stored_balance(&self, address: &str) -> (balance: i128)
        requires
            self.balances.inv(),
        ensures
            balance == self@.balance_of(address@),
    {
        match self.balances.get(address) {
            Some(amount) => *amount,
            None => 0,
        }
    }

    fn store_balance(&mut self, address: &str, amount: i128)
        requires
            old(self).inv(),
        ensures
            final(self).inv(),
            final(self)@ == old(self)@.with_balance(address@, amount as int),
    {
        self.balances.set(address, amount);
        proof {
            assert(self@.balances =~= old(self)@.balances.insert(address@, amount as int));
        }
    }

    /// Moves `amount` from `from` to `to`. `from` must have authorised the
    /// invocation. Returns whether the amount was moved: it is not where
    /// `amount` is negative or above the balance of `from`.
    pub fn transfer(
        &mut self,
        auth: &Authorizer,
        from: &str,
        to: &str,
        amount: i128,
    ) -> (result: Result<bool, AuthorizationError>)
        requires
            old(self).wf(),
        ensures
            final(self).wf(),
            match result {
                Ok(moved) => {
                    &&& auth@.contains(from@)
                    &&& moved == old(self)@.can_take(from@, amount as int)
                    &&& final(self)@ == old(self)@.after_transfer(from@, to@, amount as int)
                    &&& !moved ==> final(self)@ == old(self)@
                },
                Err(error) => {
                    &&& !auth@.contains(from@)
                    &&& error == AuthorizationError::Unauthorized
                    &&& final(self)@ == old(self)@
                },
            },
            final(self)@.total_supply == old(self)@.total_supply,
    {
        if !auth.authorizes(from) {
            return Err(AuthorizationError::Unauthorized);
        }
        let from_balance: i128 = self.balance_of(from);
        if amount < 0 || from_balance < amount {
            return Ok(false);
        }
        proof {
            old(self)@.lemma_transfer_wf(from@, to@, amount as int);
            old(self)@.lemma_with_balance(from@, from_balance - amount);
        }
        self.store_balance(from, from_balance - amount);
        let to_balance: i128 = self.stored_balance(to);
        proof {
            crate::sums::lemma_amount_within_total(self@.balances, to@);
        }
        self.store_balance(to, to_balance + amount);
        Ok(true)
    }

    /// Creates `amount` new tokens for `to`. The administrator must have
    /// authorised the invocation. Returns whether the tokens were created:
    /// they are not where `amount` is negative or the supply has no room.
    pub fn mint(
        &mut self,
        auth: &Authorizer,
        to: &str,
        amount: i128,
    ) -> (result: Result<bool, AuthorizationError>)
        requires
            old(self).wf(),
        ensures
            final(self).wf(),
            match result {
                Ok(minted) => {
                    &&& auth@.contains(old(self)@.admin)
                    &&& minted == old(self)@.can_mint(amount as int)
                    &&& final(self)@ == old(self)@.after_mint(to@, amount as int)
                    &&& !minted ==> final(self)@ == old(self)@
                },
                Err(error) => {
                    &&& !auth@.contains(old(self)@.admin)
                    &&& error == AuthorizationError::Unauthorized
                    &&& final(self)@ == old(self)@
                },
            },
    {
        if !auth.authorizes(self.admin.as_str()) {
            return Err(AuthorizationError::Unauthorized);
        }
        let current_supply: i128 = self.total_supply;
        if amount < 0 || current_supply > i128::MAX - amount {
            return Ok(false);
        }
        let current_balance: i128 = self.balance_of(to);
        proof {
            old(self)@.lemma_mint_wf(to@, amount as int);
            old(self)@.lemma_balance_within_supply(to@);
        }
        self.store_balance(to, current_balance + amount);
        self.total_supply = current_supply + amount;
        Ok(true)
    }

    /// Destroys `amount` tokens of `from`. `from` must have authorised the
    /// invocation. Returns whether the tokens were destroyed: they are not
    /// where `amount` is negative or above the balance of `from`.
    pub fn burn(
        &mut self,
        auth: &Authorizer,
        from: &str,
        amount: i128,
    ) -> (result: Result<bool, AuthorizationError>)
        requires
            old(self).wf(),
        ensures
            final(self).wf(),
            match result {
                Ok(burnt) => {
                    &&& auth@.contains(from@)
                    &&& burnt == old(self)@.can_take(from@, amount as int)
                    &&& final(self)@ == old(self)@.after_burn(from@, amount as int)
                    &&& !burnt ==> final(self)@ == old(self)@
                },
                Err(error) => {
                    &&& !auth@.contains(from@)
                    &&& error == AuthorizationError::Unauthorized
                    &&& final(self)@ == old(self)@
                },
            },
    {
        if !auth.authorizes(from) {
            return Err(AuthorizationError::Unauthorized);
        }
        let current_balance: i128 = self.balance_of(from);
        if amount < 0 || current_balance < amount {
            return Ok(false);
        }
        proof {
            old(self)@.lemma_burn_wf(from@, amount as int);
            old(self)@.lemma_balance_within_supply(from@);
        }
        self.store_balance(from, current_balance - amount);
        let current_supply: i128 = self.total_supply;
        self.total_supply = current_supply - amount;
        Ok(true)
    }

    /// Tokens minted for an ecological action of the given kind.
    pub fn calculate_eco_reward(action_type: &str) -> (reward: i128)
        ensures
            reward == eco_reward(action_type@),
    {
        if same_text(action_type, "reciclaje") {
            10
        } else if same_text(action_type, "transporte_verde") {
            15
        } else if same_text(action_type, "ahorro_agua") {
            8
        } else if same_text(action_type, "agricultura_sostenible") {
            25
        } else if same_text(action_type, "educacion_ambiental") {
            20
        } else if same_text(action_type, "reforestacion") {
            30
        } else if same_text(action_type, "limpieza_publica") {
            12
        } else if same_text(action_type, "compostaje") {
            18
        } else {
            5
        }
    }

    /// Mints the reward for an ecological action of the given kind to
    /// `user`. The administrator must have authorised the invocation.
    /// Returns the amount minted, 0 where the mint failed.
    pub fn reward_eco_action(
        &mut self,
        auth: &Authorizer,
        user: &str,
        action_type: &str,
    ) -> (result: Result<i128, AuthorizationError>)
        requires
            old(self).wf(),
        ensures
            final(self).wf(),
            match result {
                Ok(minted) => {
                    &&& auth@.contains(old(self)@.admin)
                    &&& minted == if old(self)@.can_mint(eco_reward(action_type@)) {
                        eco_reward(action_type@)
                    } else {
                        0
                    }
                    &&& final(self)@ == old(self)@.after_reward(user@, action_type@)
                },
                Err(error) => {
                    &&& !auth@.contains(old(self)@.admin)
                    &&& error == AuthorizationError::Unauthorized
                    &&& final(self)@ == old(self)@
                },
            },
    {
        if !auth.authorizes(self.admin.as_str()) {
            return Err(AuthorizationError::Unauthorized);
        }
        let reward_amount: i128 = Self::calculate_eco_reward(action_type);
        match self.mint(auth, user, reward_amount) {
            Ok(true) => Ok(reward_amount),
            Ok(false) => Ok(0),
            Err(error) => Err(error),
        }
    }

    /// Issues the next redemption number.
    fn get_next_redemption_id(&mut self) -> (next_id: u32)
        requires
            old(self).wf(),
            old(self)@.redemption_id < u32::MAX,
        ensures
            final(self).wf(),
            next_id == old(self)@.redemption_id + 1,
            final(self)@ == (TokenState { redemption_id: next_id as nat, ..old(self)@ }),
    {
        self.redemptions.issue()
    }

    /// Exchanges `amount` tokens of `user` for value at `business_address`,
    /// at time `now`: the tokens are burnt and the redemption is logged.
    /// `user` must have authorised the invocation. Returns whether the
    /// tokens were redeemed: they are not where `amount` is not positive or
    /// above the balance of `user`, or where no redemption number is left.
    pub fn redeem_tokens(
        &mut self,
        auth: &Authorizer,
        user: &str,
        amount: i128,
        business_address: &str,
        now: u64,
    ) -> (result: Result<bool, AuthorizationError>)
        requires
            old(self).wf(),
        ensures
            final(self).wf(),
            match result {
                Ok(redeemed) => {
                    &&& auth@.contains(user@)
                    &&& redeemed == old(self)@.can_redeem(user@, amount as int)
                    &&& final(self)@ == old(self)@.after_redeem(
                        user@,
                        amount as int,
                        business_address@,
                        now as nat,
                    )
                    &&& !redeemed ==> final(self)@ == old(self)@
                },
                Err(error) => {
                    &&& !auth@.contains(user@)
                    &&& error == AuthorizationError::Unauthorized
                    &&& final(self)@ == old(self)@
                },
            },
    {
        if !auth.authorizes(user) {
            return Err(AuthorizationError::Unauthorized);
        }
        let user_balance: i128 = self.balance_of(user);
        if amount <= 0 || user_balance < amount {
            return Ok(false);
        }
        if self.redemptions.last_issued() == u32::MAX {
            return Ok(false);
        }
        match self.burn(auth, user, amount) {
            Ok(true) => {},
            Ok(false) => {
                return Ok(false);
            },
            Err(error) => {
                return Err(error);
            },
        }
        let redemption_id: u32 = self.get_next_redemption_id();
        let redemption = Redemption {
            id: redemption_id,
            user: user.to_owned(),
            business: business_address.to_owned(),
            amount,
            timestamp: now,
        };
        let ghost burnt = self@;
        self.redemptions.put(redemption_id, redemption);
        proof {
            assert(self@.redemptions =~= burnt.redemptions.insert(redemption@.id, redemption@));
        }
        Ok(true)
    }

    /// The administrator.
    pub fn admin(&self) -> (admin: String)
        ensures
            admin@ == self@.admin,
    {
        self.admin.clone()
    }

    /// The last redemption number issued, 0 where none was.
    pub fn redemption_id(&self) -> (id: u32)
        requires
            self.wf(),
        ensures
            id == self@.redemption_id,
    {
        self.redemptions.last_issued()
    }

    /// All balances that the ledger holds, each address once.
    pub fn balances(&self) -> (list: Vec<(String, i128)>)
        requires
            self.wf(),
        ensures
            distinct_entries(balance_entries(list@)),
            map_of(balance_entries(list@)) == self@.balances,
    {
        let n: usize = self.balances.len();
        let mut list: Vec<(String, i128)> = Vec::new();
        let mut i: usize = 0;
        proof {
            self.balances.lemma_slots();
        }
        while i < n
            invariant
                self.balances.inv(),
                n == self.balances.keys().len(),
                n == self.balances.values().len(),
                i <= n,
                list@.len() == i,
                forall|j: int|
                    0 <= j < i ==> (#[trigger] list@[j]).0@ == self.balances.keys()[j] && list@[j].1
                        == self.balances.values()[j],
            decreases n - i,
        {
            let address = self.balances.key_at(i).to_owned();
            let amount: i128 = *self.balances.value_at(i);
            list.push((address, amount));
            i += 1;
        }
        proof {
            let entries = balance_entries(list@);
            self.balances.lemma_slots();
            assert forall|key: Seq<char>| #[trigger]
                map_of(entries).dom().contains(key) implies self@.balances.dom().contains(key) by {
                lemma_map_of_keys(entries, key);
            }
            assert forall|key: Seq<char>| #[trigger]
                self@.balances.dom().contains(key) implies map_of(entries).dom().contains(key)
                && map_of(entries)[key] == self@.balances[key] by {
                let j = choose|j: int|
                    0 <= j < self.balances.keys().len() && self.balances.keys()[j] == key;
                lemma_map_of_holds(entries, j);
            }
        }
        list
    }

    /// What each redemption number holds: place `i` is for number `i + 1`.
    pub fn redemptions(&self) -> (slots: Vec<Option<Redemption>>)
        requires
            self.wf(),
        ensures
            slots@.len() == self@.redemption_id,
            filled(redemption_slot_views(slots@)) == self@.redemptions,
    {
        let held = self.redemptions.slots();
        let n: usize = held.len();
        let mut slots: Vec<Option<Redemption>> = Vec::new();
        let mut i: usize = 0;
        while i < n
            invariant
                n == held@.len(),
                i <= n,
                slots@.len() == i,
                forall|j: int| 0 <= j < i ==> slots@[j] == held@[j],
            decreases n - i,
        {
            let copy = match &held[i] {
                Some(redemption) => Some(redemption.clone()),
                None => None,
            };
            slots.push(copy);
            i += 1;
        }
        slots
    }

    /// The ledger that holds the listed balances and, under number `i + 1`,
    /// what place `i` of `redemptions` holds. There is none where an address
    /// comes twice or where the parts are not consistent: a balance is
    /// negative, the balances do not add up to `total_supply`, a redemption
    /// sits under another number than its own or is for no positive amount,
    /// or the redemption numbers do not fit 32 bits.
    pub fn restore(
        admin: String,
        name: String,
        symbol: String,
        total_supply: i128,
        balances: Vec<(String, i128)>,
        redemptions: Vec<Option<Redemption>>,
    ) -> (restored: Option<Self>)
        ensures
            restored is Some <==> {
                &&& distinct_entries(balance_entries(balances@))
                &&& TokenState::assembled(
                    admin@,
                    name@,
                    symbol@,
                    total_supply as int,
                    balance_entries(balances@),
                    redemption_slot_views(redemptions@),
                ).wf()
            },
            restored matches Some(token) ==> {
                &&& token.wf()
                &&& token@ == TokenState::assembled(
                    admin@,
                    name@,
                    symbol@,
                    total_supply as int,
                    balance_entries(balances@),
                    redemption_slot_views(redemptions@),
                )
            },
    {
        let ghost entries = balance_entries(balances@);
        let ghost slot_views = redemption_slot_views(redemptions@);
        let ghost whole = TokenState::assembled(
            admin@,
            name@,
            symbol@,
            total_supply as int,
            entries,
            slot_views,
        );
        if redemptions.len() > 0xFFFF_FFFF {
            return None;
        }
        let mut k: usize = 0;
        while k < redemptions.len()
            invariant
                k <= redemptions@.len(),
                entries == balance_entries(balances@),
                slot_views == redemption_slot_views(redemptions@),
                whole == TokenState::assembled(
                    admin@,
                    name@,
                    symbol@,
                    total_supply as int,
                    entries,
                    slot_views,
                ),
                forall|j: int|
                    0 <= j < k ==> (#[trigger] redemptions@[j] matches Some(redemption)
                        ==> redemption.id == j + 1 && redemption.amount > 0),
            decreases redemptions@.len() - k,
        {
            if let Some(redemption) = &redemptions[k] {
                if redemption.id as usize != k + 1 || redemption.amount <= 0 {
                    proof {
                        assert(whole.redemptions.dom().contains((k + 1) as nat));
                    }
                    return None;
                }
            }
            k += 1;
        }
        let mut store: Store<i128> = Store::new();
        let mut sum: i128 = 0;
        let mut i: usize = 0;
        while i < balances.len()
            invariant
                i <= balances@.len(),
                entries == balance_entries(balances@),
                slot_views == redemption_slot_views(redemptions@),
                whole == TokenState::assembled(
                    admin@,
                    name@,
                    symbol@,
                    total_supply as int,
                    entries,
                    slot_views,
                ),
                store.inv(),
                balance_map(store@) == map_of(entries.take(i as int)),
                distinct_entries(entries.take(i as int)),
                forall|j: int| 0 <= j < i ==> (#[trigger] entries[j]).1 >= 0,
                0 <= sum,
                sum == total(map_of(entries.take(i as int))),
            decreases balances@.len() - i,
        {
            let entry = &balances[i];
            let ghost seen = entries.take(i as int);
            let ghost longer = entries.take(i + 1);
            if store.has(entry.0.as_str()) {
                proof {
                    lemma_map_of_keys(seen, entry.0@);
                    let j = choose|j: int| 0 <= j < seen.len() && seen[j].0 == entry.0@;
                    assert(entries[j].0 == entries[i as int].0);
                }
                return None;
            }
            if entry.1 < 0 {
                proof {
                    if distinct_entries(entries) {
                        lemma_map_of_holds(entries, i as int);
                    }
                }
                return None;
            }
            proof {
                assert(distinct_entries(longer)) by {
                    assert forall|a: int, b: int|
                        0 <= a < longer.len() && 0 <= b < longer.len() && longer[a].0
                            == longer[b].0 implies a == b by {
                        if a < i && b == i {
                            lemma_map_of_holds(seen, a);
                        } else if b < i && a == i {
                            lemma_map_of_holds(seen, b);
                        }
                    }
                }
                assert(longer.take(i as int) =~= seen);
                lemma_total_extend(longer, i as int);
            }
            if sum > i128::MAX - entry.1 {
                proof {
                    if distinct_entries(entries) && whole.wf() {
                        assert forall|j: int| 0 <= j < entries.len() implies entries[j].1 >= 0 by {
                            lemma_map_of_holds(entries, j);
                        }
                        lemma_total_of_part(entries, i + 1);
                    }
                }
                return None;
            }
            store.set(entry.0.as_str(), entry.1);
            sum = sum + entry.1;
            i += 1;
        }
        proof {
            assert(entries.take(balances@.len() as int) =~= entries);
        }
        if sum != total_supply {
            return None;
        }
        match Journal::from_slots(redemptions) {
            Some(journal) => {
                let token = PradonsitosToken {
                    admin,
                    name,
                    symbol,
                    decimals: TOKEN_DECIMALS,
                    total_supply,
                    balances: store,
                    redemptions: journal,
                };
                proof {
                    assert(token@.redemptions =~= whole.redemptions);
                    crate::store::lemma_map_of_finite(entries);
                    assert forall|key: Seq<char>| #[trigger]
                        whole.balances.dom().contains(key) implies whole.balances[key] >= 0 by {
                        lemma_map_of_keys(entries, key);
                        let j = choose|j: int| 0 <= j < entries.len() && entries[j].0 == key;
                        lemma_map_of_holds(entries, j);
                    }
                }
                Some(token)
            },
            None => None,
        }
    }
}

} // verus!
