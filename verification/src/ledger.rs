//! The boundary to the value ledger.
//!
//! The engine never moves value. It is told what the ledger holds (the
//! accounts that a request names, as plain values) and answers with the
//! instructions that the caller has to carry out on the ledger, in order and
//! as one unit: if any of them fails, the market record must be left as it
//! was before the operation.
use crate::state::identity::Identity;
use anchor_lang::solana_program::program_pack::Pack;
use anchor_spl::token::spl_token::state::Mint;
use vstd::prelude::*;

verus! {

/// Length in bytes of the stored form of a token.
pub const MINT_LEN: usize = 82;

/// What the ledger holds of an account of any kind.
#[derive(Clone, Debug)]
pub struct AccountData {
    /// The account's own identity.
    pub key: Identity,
    /// The program that owns the account.
    pub owner: Identity,
    /// The account's stored bytes.
    pub data: Vec<u8>,
}

/// Whether the four bytes of `data` from `at` on are the tag of an optional
/// key: 0 or 1 as a little-endian 32-bit number.
pub open spec fn is_option_tag(data: Seq<u8>, at: int) -> bool {
    &&& data[at] == 0 || data[at] == 1
    &&& data[at + 1] == 0
    &&& data[at + 2] == 0
    &&& data[at + 3] == 0
}

/// Whether `data` is the stored form of an initialized token: 82 bytes, of
/// which the mint authority's tag (at 0) and the freeze authority's tag (at
/// 46) are well-formed and the initialization flag (at 45) is 1.
pub open spec fn is_initialized_mint(data: Seq<u8>) -> bool {
    &&& data.len() == MINT_LEN
    &&& is_option_tag(data, 0)
    &&& data[45] == 1
    &&& is_option_tag(data, 46)
}

/// Whether the token program reads `data` as an initialized token.
///
/// Calls `Mint::unpack` of the token program's crate and tells success from
/// failure. The contract restates when that function succeeds: on input of
/// the packed length whose two option tags and whose initialization flag
/// parse, and whose flag says initialized. It is believed, not proved.
#[verifier::external_body]
pub(crate) fn mint_unpacks(data: &Vec<u8>) -> (ok: bool)
    ensures
        ok == is_initialized_mint(data@),
{
    match Mint::unpack(data.as_slice()) {
        Ok(_) => true,
        Err(_) => false,
    }
}

/// What the ledger holds of a token account.
#[derive(Clone, Copy, Debug, PartialEq, Eq, Structural)]
pub struct TokenAccount {
    /// The account's own identity.
    pub key: Identity,
    /// The token that the account holds.
    pub mint: Identity,
    /// The identity that may spend from the account.
    pub owner: Identity,
    /// The balance.
    pub amount: u64,
}

/// What the ledger holds of a token.
#[derive(Clone, Copy, Debug, PartialEq, Eq)]
pub struct MintAccount {
    /// The token's own identity.
    pub key: Identity,
    /// The identity that may mint the token, if there is one.
    pub mint_authority: Option<Identity>,
}

/// One movement of value that the engine asks for.
#[derive(Clone, Copy, Debug, PartialEq, Eq, Structural)]
pub enum LedgerInstruction {
    /// Move `amount` of collateral between two token accounts.
    Transfer { from: Identity, to: Identity, amount: u64, authority: Identity },
    /// Create `amount` units of the token `mint` in the account `to`.
    MintTo { mint: Identity, to: Identity, amount: u64, authority: Identity },
    /// Destroy `amount` units of the token `mint` in the account `from`.
    Burn { mint: Identity, from: Identity, amount: u64, authority: Identity },
    /// Set up the token `mint` with `decimals` decimals and `authority` as
    /// the identity that may mint it.
    InitializeMint { mint: Identity, decimals: u8, authority: Identity },
}

} // verus!
