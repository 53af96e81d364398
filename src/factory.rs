use vstd::prelude::*;
use crate::types::{Address, Error, FactoryState, TokenInfo};

verus! {

/// Burns applied in order to one record, stopping at the first that fails.
/// Returns the record as it stands afterwards and whether every burn succeeded.
pub open spec fn batch_run(t: TokenInfo, burns: Seq<(Address, i128)>) -> (TokenInfo, bool)
    decreases burns.len(),
{
    if burns.len() == 0 {
        (t, true)
    } else if t.can_burn(burns[0].1) {
        batch_run(t.after_burn(burns[0].1), burns.drop_first())
    } else {
        (t, false)
    }
}

/// The factory: its configuration, once initialized, and the registry of tokens,
/// densely indexed from 0 in order of creation.
pub struct TokenFactory {
    state: Option<FactoryState>,
    tokens: Vec<TokenInfo>,
}

impl TokenFactory {
    /// The configuration, or `None` before `initialize`.
    pub closed spec fn config(self) -> Option<FactoryState> {
        self.state
    }

    /// The registry, index `i` holding the `i`-th token created.
    pub closed spec fn tokens(self) -> Seq<TokenInfo> {
        self.tokens@
    }

    /// The factory's invariant: the count fits `u32` and every record is valid.
    pub open spec fn wf(self) -> bool {
        &&& self.tokens().len() <= u32::MAX
        &&& forall|i: int| 0 <= i < self.tokens().len() ==> (#[trigger] self.tokens()[i]).valid()
    }

    /// `i` is the lowest index whose token has address `addr`.
    pub open spec fn is_first_match(self, addr: Address, i: int) -> bool {
        &&& 0 <= i < self.tokens().len()
        &&& self.tokens()[i].address == addr
        &&& forall|j: int| 0 <= j < i ==> (#[trigger] self.tokens()[j]).address != addr
    }

    /// Some registered token has address `addr`.
    pub open spec fn has_token(self, addr: Address) -> bool {
        exists|i: int| 0 <= i < self.tokens().len() && (#[trigger] self.tokens()[i]).address == addr
    }

    /// The index of the first token with address `addr` (meaningful when `has_token(addr)`).
    pub open spec fn index_of(self, addr: Address) -> int {
        choose|i: int| self.is_first_match(addr, i)
    }

    /// `later` is a possible later state: the registry only grows, and each
    /// record present here evolves as `TokenInfo::evolves_to` allows.
    pub open spec fn evolves_to(self, later: TokenFactory) -> bool {
        &&& self.tokens().len() <= later.tokens().len()
        &&& forall|i: int|
            0 <= i < self.tokens().len() ==> (#[trigger] self.tokens()[i]).evolves_to(
                later.tokens()[i],
            )
    }

    /// An empty factory, not yet initialized.
    pub fn new() -> (r: TokenFactory)
        ensures
            r.wf(),
            r.config() is None,
            r.tokens().len() == 0,
    {
        TokenFactory { state: None, tokens: Vec::new() }
    }

    /// Sets admin, treasury and fees, once.
    pub fn initialize(
        &mut self,
        admin: Address,
        treasury: Address,
        base_fee: i128,
        metadata_fee: i128,
    ) -> (r: Result<(), Error>)
        requires
            old(self).wf(),
        ensures
            final(self).wf(),
            old(self).evolves_to(*final(self)),
            final(self).tokens() == old(self).tokens(),
            old(self).config() is Some ==> r == Err::<(), Error>(Error::AlreadyInitialized),
            old(self).config() is None && (base_fee < 0 || metadata_fee < 0) ==> r == Err::<(), Error>(
                Error::InvalidParameters,
            ),
            r is Err ==> final(self).config() == old(self).config(),
            r is Ok <==> (old(self).config() is None && base_fee >= 0 && metadata_fee >= 0),
            r is Ok ==> final(self).config() == Some(
                FactoryState { admin, treasury, base_fee, metadata_fee },
            ),
    {
        if self.state.is_some() {
            return Err(Error::AlreadyInitialized);
        }
        if base_fee < 0 || metadata_fee < 0 {
            return Err(Error::InvalidParameters);
        }
        self.state = Some(FactoryState { admin, treasury, base_fee, metadata_fee });
        Ok(())
    }

    /// Whether `initialize` has succeeded.
    pub fn is_initialized(&self) -> (r: bool)
        ensures
            r == self.config() is Some,
    {
        self.state.is_some()
    }

    /// The configuration.
    pub fn get_state(&self) -> (r: FactoryState)
        requires
            self.config() is Some,
        ensures
            r == self.config().unwrap(),
    {
        self.state.unwrap()
    }

    /// Changes the fees given as `Some`; only the admin may.
    /// Both fees are checked before either is written.
    pub fn update_fees(
        &mut self,
        admin: Address,
        base_fee: Option<i128>,
        metadata_fee: Option<i128>,
    ) -> (r: Result<(), Error>)
        requires
            old(self).wf(),
            old(self).config() is Some,
        ensures
            final(self).wf(),
            old(self).evolves_to(*final(self)),
            final(self).tokens() == old(self).tokens(),
            admin != old(self).config().unwrap().admin ==> r == Err::<(), Error>(Error::Unauthorized),
            admin == old(self).config().unwrap().admin && (match base_fee {
                Some(f) => f < 0,
                None => false,
            } || match metadata_fee {
                Some(f) => f < 0,
                None => false,
            }) ==> r == Err::<(), Error>(Error::InvalidParameters),
            r is Err ==> final(self).config() == old(self).config(),
            r is Ok <==> admin == old(self).config().unwrap().admin && !(match base_fee {
                Some(f) => f < 0,
                None => false,
            } || match metadata_fee {
                Some(f) => f < 0,
                None => false,
            }),
            r is Ok ==> final(self).config() == Some(
                FactoryState {
                    base_fee: match base_fee {
                        Some(f) => f,
                        None => old(self).config().unwrap().base_fee,
                    },
                    metadata_fee: match metadata_fee {
                        Some(f) => f,
                        None => old(self).config().unwrap().metadata_fee,
                    },
                    ..old(self).config().unwrap()
                },
            ),
    {
        let current = self.state.unwrap();
        if admin != current.admin {
            return Err(Error::Unauthorized);
        }
        let mut next = current;
        if let Some(fee) = base_fee {
            if fee < 0 {
                return Err(Error::InvalidParameters);
            }
            next.base_fee = fee;
        }
        if let Some(fee) = metadata_fee {
            if fee < 0 {
                return Err(Error::InvalidParameters);
            }
            next.metadata_fee = fee;
        }
        self.state = Some(next);
        Ok(())
    }

    /// The number of registered tokens, which is also the next index.
    pub fn get_token_count(&self) -> (r: u32)
        requires
            self.wf(),
        ensures
            r == self.tokens().len(),
    {
        self.tokens.len() as u32
    }

    /// The token at `index`, or `TokenNotFound` past the end.
    pub fn get_token_info(&self, index: u32) -> (r: Result<TokenInfo, Error>)
        ensures
            index < self.tokens().len() ==> r == Ok::<TokenInfo, Error>(self.tokens()[index as int]),
            index >= self.tokens().len() ==> r == Err::<TokenInfo, Error>(Error::TokenNotFound),
    {
        if (index as usize) < self.tokens.len() {
            Ok(self.tokens[index as usize].duplicate())
        } else {
            Err(Error::TokenNotFound)
        }
    }

    /// The lowest index whose token has address `addr`, scanning from 0.
    pub fn find_token(&self, addr: Address) -> (r: Option<u32>)
        requires
            self.wf(),
        ensures
            match r {
                Some(i) => self.is_first_match(addr, i as int),
                None => !self.has_token(addr),
            },
    {
        let mut i: usize = 0;
        while i < self.tokens.len()
            invariant
                self.wf(),
                i <= self.tokens().len(),
                forall|j: int| 0 <= j < i ==> (#[trigger] self.tokens()[j]).address != addr,
            decreases self.tokens().len() - i,
        {
            if self.tokens[i].address == addr {
                return Some(i as u32);
            }
            i = i + 1;
        }
        None
    }

    /// The first token with address `addr`; the address must be registered.
    pub fn get_token_info_by_address(&self, addr: Address) -> (r: TokenInfo)
        requires
            self.wf(),
            self.has_token(addr),
        ensures
            exists|i: int| self.is_first_match(addr, i) && r == self.tokens()[i],
    {
        let i = self.find_token(addr).unwrap();
        self.tokens[i as usize].duplicate()
    }

    /// Registers a new token at the next index. The host supplies the fresh
    /// `token_address` and the ledger time `created_at`.
    pub fn create_token(
        &mut self,
        creator: Address,
        name: String,
        symbol: String,
        decimals: u32,
        initial_supply: i128,
        token_address: Address,
        created_at: u64,
    ) -> (r: Result<Address, Error>)
        requires
            old(self).wf(),
            initial_supply < 0 || old(self).tokens().len() < u32::MAX,
        ensures
            final(self).wf(),
            old(self).evolves_to(*final(self)),
            final(self).config() == old(self).config(),
            initial_supply < 0 ==> r == Err::<Address, Error>(Error::InvalidParameters)
                && final(self).tokens() == old(self).tokens(),
            initial_supply >= 0 ==> r == Ok::<Address, Error>(token_address)
                && final(self).tokens() == old(self).tokens().push(
                (TokenInfo {
                    address: token_address,
                    creator,
                    name,
                    symbol,
                    decimals,
                    total_supply: initial_supply,
                    metadata_uri: None,
                    created_at,
                    total_burned: 0,
                    burn_count: 0,
                }),
            ),
    {
        if initial_supply < 0 {
            return Err(Error::InvalidParameters);
        }
        let info = TokenInfo {
            address: token_address,
            creator,
            name,
            symbol,
            decimals,
            total_supply: initial_supply,
            metadata_uri: None,
            created_at,
            total_burned: 0,
            burn_count: 0,
        };
        self.tokens.push(info);
        proof {
            assert(forall|i: int| 0 <= i < old(self).tokens().len() ==> #[trigger] self.tokens()[i] == old(self).tokens()[i]);
        }
        Ok(token_address)
    }

    /// Burns `amount` from the token at index `i`.
    fn burn_at(&mut self, i: usize, amount: i128) -> (r: Result<(), Error>)
        requires
            old(self).wf(),
            i < old(self).tokens().len(),
        ensures
            final(self).wf(),
            old(self).evolves_to(*final(self)),
            final(self).config() == old(self).config(),
            old(self).tokens()[i as int].can_burn(amount) ==> r is Ok && final(self).tokens()
                == old(self).tokens().update(i as int, old(self).tokens()[i as int].after_burn(amount)),
            !old(self).tokens()[i as int].can_burn(amount) ==> r == Err::<(), Error>(Error::InvalidBurnAmount)
                && final(self).tokens() == old(self).tokens(),
    {
        if amount <= 0 || amount > self.tokens[i].total_supply || self.tokens[i].burn_count == u32::MAX {
            return Err(Error::InvalidBurnAmount);
        }
        assert(self.tokens()[i as int].valid());
        let supply = self.tokens[i].total_supply - amount;
        let burned = self.tokens[i].total_burned + amount;
        let count = self.tokens[i].burn_count + 1;
        self.tokens[i].total_supply = supply;
        self.tokens[i].total_burned = burned;
        self.tokens[i].burn_count = count;
        proof {
            assert(self.tokens()[i as int] == old(self).tokens()[i as int].after_burn(amount));
            assert(self.tokens() =~= old(self).tokens().update(i as int, old(self).tokens()[i as int].after_burn(amount)));
        }
        Ok(())
    }

    /// The first match is unique, so `index_of` names it.
    proof fn lemma_index_of(self, addr: Address, i: int)
        requires
            self.is_first_match(addr, i),
        ensures
            self.index_of(addr) == i,
    {
        let k = self.index_of(addr);
        assert(self.is_first_match(addr, k));
        if k < i {
            assert(self.tokens()[k].address != addr);
        } else if i < k {
            assert(self.tokens()[i].address != addr);
        }
    }

    /// Burns `amount` from the token with address `token_address`, on behalf of
    /// `from`, whose proof of identity the host has checked. A non-positive amount
    /// fails with `InvalidBurnAmount` before any lookup; otherwise the address must be
    /// registered, and the burn fails with `InvalidBurnAmount` unless
    /// `amount <= total_supply` and the burn count can grow.
    pub fn burn(&mut self, token_address: Address, from: Address, amount: i128) -> (r: Result<(), Error>)
        requires
            old(self).wf(),
            old(self).has_token(token_address) || amount <= 0,
        ensures
            final(self).wf(),
            old(self).evolves_to(*final(self)),
            final(self).config() == old(self).config(),
            amount <= 0 ==> r == Err::<(), Error>(Error::InvalidBurnAmount)
                && final(self).tokens() == old(self).tokens(),
            old(self).has_token(token_address) ==> ({
                let i = old(self).index_of(token_address);
                let t = old(self).tokens()[i];
                &&& t.can_burn(amount) ==> r is Ok && final(self).tokens() == old(self).tokens().update(i, t.after_burn(amount))
                &&& !t.can_burn(amount) ==> r == Err::<(), Error>(Error::InvalidBurnAmount)
                    && final(self).tokens() == old(self).tokens()
            }),
    {
        if amount <= 0 {
            return Err(Error::InvalidBurnAmount);
        }
        let i = self.find_token(token_address).unwrap();
        proof {
            self.lemma_index_of(token_address, i as int);
        }
        self.burn_at(i as usize, amount)
    }

    /// Whether `admin` may force a burn of the token at `token_address`: only its
    /// creator may. The address must be registered.
    pub fn authorize_admin_burn(&self, token_address: Address, admin: Address) -> (r: Result<(), Error>)
        requires
            self.wf(),
            self.has_token(token_address),
        ensures
            admin == self.tokens()[self.index_of(token_address)].creator ==> r is Ok,
            admin != self.tokens()[self.index_of(token_address)].creator ==> r == Err::<(), Error>(
                Error::Unauthorized,
            ),
    {
        let i = self.find_token(token_address).unwrap();
        proof {
            self.lemma_index_of(token_address, i as int);
        }
        if admin != self.tokens[i as usize].creator {
            Err(Error::Unauthorized)
        } else {
            Ok(())
        }
    }

    /// Burns on the authority of `admin`, who must be the token's creator;
    /// `from`'s proof of identity is checked by the host as for `burn`.
    pub fn admin_burn(
        &mut self,
        token_address: Address,
        admin: Address,
        from: Address,
        amount: i128,
    ) -> (r: Result<(), Error>)
        requires
            old(self).wf(),
            old(self).has_token(token_address),
        ensures
            final(self).wf(),
            old(self).evolves_to(*final(self)),
            final(self).config() == old(self).config(),
            ({
                let i = old(self).index_of(token_address);
                let t = old(self).tokens()[i];
                &&& admin != t.creator ==> r == Err::<(), Error>(Error::Unauthorized)
                    && final(self).tokens() == old(self).tokens()
                &&& admin == t.creator && t.can_burn(amount) ==> r is Ok
                    && final(self).tokens() == old(self).tokens().update(i, t.after_burn(amount))
                &&& admin == t.creator && !t.can_burn(amount) ==> r == Err::<(), Error>(
                    Error::InvalidBurnAmount,
                ) && final(self).tokens() == old(self).tokens()
            }),
    {
        if let Err(e) = self.authorize_admin_burn(token_address, admin) {
            return Err(e);
        }
        self.burn(token_address, from, amount)
    }

    /// Burns each `(from, amount)` in order, stopping at the first failure.
    /// Burns before the failing one stay applied. The address must be registered
    /// unless the batch is empty or its first amount is not positive, since the
    /// first lookup comes only after the first amount check.
    pub fn burn_batch(&mut self, token_address: Address, burns: Vec<(Address, i128)>) -> (r: Result<(), Error>)
        requires
            old(self).wf(),
            old(self).has_token(token_address) || burns@.len() == 0 || burns@[0].1 <= 0,
        ensures
            final(self).wf(),
            old(self).evolves_to(*final(self)),
            final(self).config() == old(self).config(),
            !old(self).has_token(token_address) ==> final(self).tokens() == old(self).tokens(),
            !old(self).has_token(token_address) && burns@.len() == 0 ==> r is Ok,
            !old(self).has_token(token_address) && burns@.len() > 0 ==> r == Err::<(), Error>(
                Error::InvalidBurnAmount,
            ),
            old(self).has_token(token_address) ==> ({
                let i = old(self).index_of(token_address);
                let run = batch_run(old(self).tokens()[i], burns@);
                &&& final(self).tokens() == old(self).tokens().update(i, run.0)
                &&& run.1 ==> r is Ok
                &&& !run.1 ==> r == Err::<(), Error>(Error::InvalidBurnAmount)
            }),
    {
        let found = match self.find_token(token_address) {
            Some(i) => i,
            None => {
                if burns.len() == 0 {
                    return Ok(());
                }
                return Err(Error::InvalidBurnAmount);
            },
        };
        proof {
            self.lemma_index_of(token_address, found as int);
        }
        let ghost idx = self.index_of(token_address);
        let ghost start = self.tokens()[idx];
        let mut k: usize = 0;
        proof {
            assert(burns@.skip(0) =~= burns@);
            assert(self.tokens() =~= self.tokens().update(idx, start));
        }
        while k < burns.len()
            invariant
                self.wf(),
                old(self).wf(),
                old(self).has_token(token_address),
                idx == old(self).index_of(token_address),
                old(self).is_first_match(token_address, idx),
                start == old(self).tokens()[idx],
                old(self).evolves_to(*self),
                self.config() == old(self).config(),
                k <= burns@.len(),
                self.tokens() == old(self).tokens().update(idx, self.tokens()[idx]),
                batch_run(start, burns@) == batch_run(self.tokens()[idx], burns@.skip(k as int)),
            decreases burns@.len() - k,
        {
            let (from, amount) = burns[k];
            proof {
                assert(self.is_first_match(token_address, idx));
                self.lemma_index_of(token_address, idx);
                assert(burns@.skip(k as int).drop_first() =~= burns@.skip(k + 1));
            }
            let res = self.burn(token_address, from, amount);
            if res.is_err() {
                return Err(Error::InvalidBurnAmount);
            }
            k = k + 1;
        }
        proof {
            assert(burns@.skip(k as int) =~= Seq::<(Address, i128)>::empty());
        }
        Ok(())
    }
}

} // verus!
