//! Identifiers, amounts and tags shared by every engine.
use vstd::prelude::*;
use vstd::std_specs::cmp::PartialEqSpecImpl;

verus! {

/// An amount of funds, or the weight of a vote, in the smallest unit of a currency.
pub type Balance = u128;

/// The height of a block; every deadline is a block number.
pub type BlockNumber = u32;

/// The key of a project.
pub type ProjectKey = u32;

/// The key of a milestone, unique within its project.
pub type MilestoneKey = u32;

/// A content-agreement digest of 256 bits, carried but never interpreted.
pub type AgreementHash = [u8; 32];

/// The identity of an account: 32 bytes, compared byte by byte.
#[derive(Clone, Copy, Debug, Hash)]
pub struct AccountId {
    pub bytes: [u8; 32],
}

impl PartialEq for AccountId {
    fn eq(&self, other: &Self) -> (r: bool) {
        let mut i: usize = 0;
        while i < 32
            invariant
                i <= 32,
                forall|j: int| 0 <= j < i ==> self.bytes@[j] == other.bytes@[j],
            decreases 32 - i,
        {
            if self.bytes[i] != other.bytes[i] {
                return false;
            }
            i += 1;
        }
        assert(self.bytes@ =~= other.bytes@);
        true
    }
}

impl Eq for AccountId {

}

impl PartialEqSpecImpl for AccountId {
    open spec fn obeys_eq_spec() -> bool {
        true
    }

    open spec fn eq_spec(&self, other: &Self) -> bool {
        self.bytes@ == other.bytes@
    }
}

impl AccountId {
    /// The account with the given bytes.
    pub fn new(bytes: [u8; 32]) -> (account: AccountId)
        ensures
            account.bytes == bytes,
    {
        AccountId { bytes }
    }

    /// Whether two accounts are the same account.
    pub fn same(&self, other: &AccountId) -> (r: bool)
        ensures
            r == (*self == *other),
    {
        let r = *self == *other;
        proof {
            if r {
                assert(self.bytes =~= other.bytes);
            }
        }
        r
    }
}

/// The currencies that a project can be funded in.
#[derive(Clone, Copy, Debug, PartialEq, Eq, Structural, Hash)]
pub enum CurrencyId {
    Native,
    KSM,
    AUSD,
    KAR,
    MGX,
    ForeignAsset(u32),
}

/// The relay or parachain treasury that funds a treasury-sourced project.
#[derive(Clone, Copy, Debug, PartialEq, Eq, Structural)]
pub enum TreasuryOrigin {
    Kusama,
    Imbue,
    Karura,
}

/// Where the funds of a project came from.
#[derive(Clone, Copy, Debug, PartialEq, Eq, Structural)]
pub enum FundingType {
    /// A direct proposal, funded from its contributors' reserved balances.
    Proposal,
    /// Converted from a brief, funded from its owners' reserved balances.
    Brief,
    /// Funded by a treasury; the funds arrive from outside.
    Treasury(TreasuryOrigin),
}

/// Who asks for an operation.
#[derive(Clone, Copy, Debug)]
pub enum Origin {
    /// The authority that may override jury and contributors.
    Root,
    /// An account that signed the request.
    Signed(AccountId),
    /// A request that nobody signed.
    Unsigned,
}

/// The request did not come from an origin that may make it.
#[derive(Clone, Copy, Debug, PartialEq, Eq, Structural)]
pub struct BadOrigin;

impl Origin {
    /// The origin of a request signed by `who`.
    pub fn signed(who: AccountId) -> (origin: Origin)
        ensures
            origin == Origin::Signed(who),
    {
        Origin::Signed(who)
    }

    /// The origin of the authority.
    pub fn root() -> (origin: Origin)
        ensures
            origin == Origin::Root,
    {
        Origin::Root
    }
}

/// The account behind a signed origin; any other origin is refused.
pub fn ensure_signed(origin: Origin) -> (r: Result<AccountId, BadOrigin>)
    ensures
        r == (match origin {
            Origin::Signed(who) => Ok::<AccountId, BadOrigin>(who),
            _ => Err::<AccountId, BadOrigin>(BadOrigin),
        }),
{
    match origin {
        Origin::Signed(who) => Ok(who),
        _ => Err(BadOrigin),
    }
}

/// Accepts the authority's origin and refuses any other.
pub fn ensure_root(origin: Origin) -> (r: Result<(), BadOrigin>)
    ensures
        r.is_ok() <==> origin == Origin::Root,
{
    match origin {
        Origin::Root => Ok(()),
        _ => Err(BadOrigin),
    }
}

/// The cost of an operation, counted in reads and writes of the store.
#[derive(Clone, Copy, Debug, PartialEq, Eq, Structural)]
pub struct Weight {
    pub reads: u64,
    pub writes: u64,
}

impl Weight {
    /// The cost of `reads` reads and `writes` writes.
    pub fn reads_writes(reads: u64, writes: u64) -> (w: Weight)
        ensures
            w == (Weight { reads, writes }),
    {
        Weight { reads, writes }
    }
}

} // verus!
