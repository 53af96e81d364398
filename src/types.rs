use vstd::prelude::*;

verus! {

/// An opaque principal or token identifier, as handed out by the host.
#[derive(Clone, Copy, PartialEq, Eq, Structural, Debug)]
pub struct Address {
    pub id: u64,
}

/// The recoverable failures of the factory's operations.
#[derive(Clone, Copy, PartialEq, Eq, Structural, Debug)]
pub enum Error {
    AlreadyInitialized,
    InvalidParameters,
    Unauthorized,
    TokenNotFound,
    InvalidBurnAmount,
}

/// The factory's configuration: set once by `initialize`, fees updatable by the admin.
#[derive(Clone, Copy, PartialEq, Eq, Structural, Debug)]
pub struct FactoryState {
    pub admin: Address,
    pub treasury: Address,
    pub base_fee: i128,
    pub metadata_fee: i128,
}

/// One registered token.
#[derive(Clone, PartialEq, Eq, Debug)]
pub struct TokenInfo {
    pub address: Address,
    pub creator: Address,
    pub name: String,
    pub symbol: String,
    pub decimals: u32,
    pub total_supply: i128,
    pub metadata_uri: Option<String>,
    pub created_at: u64,
    pub total_burned: i128,
    pub burn_count: u32,
}

impl TokenInfo {
    /// Supply still outstanding plus supply ever burned: the supply the token was created with.
    pub open spec fn issued(self) -> int {
        self.total_supply + self.total_burned
    }

    /// The bookkeeping invariant of a record: nothing negative, and the issued supply fits `i128`.
    pub open spec fn valid(self) -> bool {
        &&& self.total_supply >= 0
        &&& self.total_burned >= 0
        &&& self.issued() <= i128::MAX
    }

    /// Whether burning `amount` from this token succeeds.
    pub open spec fn can_burn(self, amount: i128) -> bool {
        &&& 0 < amount
        &&& amount <= self.total_supply
        &&& self.burn_count < u32::MAX
    }

    /// The record after a successful burn of `amount`.
    pub open spec fn after_burn(self, amount: i128) -> TokenInfo {
        TokenInfo {
            total_supply: (self.total_supply - amount) as i128,
            total_burned: (self.total_burned + amount) as i128,
            burn_count: (self.burn_count + 1) as u32,
            ..self
        }
    }

    /// Fields that no operation changes after creation.
    pub open spec fn same_identity(self, other: TokenInfo) -> bool {
        &&& self.address == other.address
        &&& self.creator == other.creator
        &&& self.name == other.name
        &&& self.symbol == other.symbol
        &&& self.decimals == other.decimals
        &&& self.metadata_uri == other.metadata_uri
        &&& self.created_at == other.created_at
    }

    /// `later` is a possible later version of this record: same identity, same
    /// issued supply, and burn totals that never went down.
    pub open spec fn evolves_to(self, later: TokenInfo) -> bool {
        &&& self.same_identity(later)
        &&& self.issued() == later.issued()
        &&& self.total_burned <= later.total_burned
        &&& self.burn_count <= later.burn_count
    }

    /// A field-by-field copy.
    pub fn duplicate(&self) -> (r: TokenInfo)
        ensures
            r == *self,
    {
        let uri = match &self.metadata_uri {
            Some(s) => Some(s.clone()),
            None => None,
        };
        TokenInfo {
            address: self.address,
            creator: self.creator,
            name: self.name.clone(),
            symbol: self.symbol.clone(),
            decimals: self.decimals,
            total_supply: self.total_supply,
            metadata_uri: uri,
            created_at: self.created_at,
            total_burned: self.total_burned,
            burn_count: self.burn_count,
        }
    }
}

} // verus!
