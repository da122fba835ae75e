use crate::key::Key;
use anchor_lang::prelude::Pubkey;
use vstd::prelude::*;

verus! {

/// The address of the token account that belongs to a wallet for a mint, as
/// the token programs derive it, or nothing where no such address exists.
///
/// The address is a function of the two keys alone. It is not computed
/// here: it is whatever the derivation of program addresses gives.
pub uninterp spec fn associated_token_address(wallet: Seq<u8>, mint: Seq<u8>) -> Option<Seq<u8>>;

/// Derives the address of the token account that belongs to `wallet` for `mint`.
///
/// Calls `Pubkey::try_find_program_address` with the seeds of an associated
/// token account (the wallet, the token program's id, the mint) under the
/// associated-token program's id, both ids as `anchor_spl` gives them. The
/// contract claims only that the outcome is the named function of the two
/// keys: the same keys always give the same address, or none.
#[verifier::external_body]
pub(crate) fn find_associated_token_address(wallet: &Key, mint: &Key) -> (address: Option<Key>)
    ensures
        address is Some <==> associated_token_address(wallet@, mint@) is Some,
        address matches Some(key) ==> associated_token_address(wallet@, mint@) == Some(key@),
{
    let seeds: [&[u8]; 3] = [&wallet.bytes, anchor_spl::token::ID.as_ref(), &mint.bytes];
    match Pubkey::try_find_program_address(&seeds, &anchor_spl::associated_token::ID) {
        Some((address, _)) => Some(Key { bytes: address.to_bytes() }),
        None => None,
    }
}

} // verus!
