//! The calls into cosmwasm_std that encode the outbound transfer instruction,
//! decode the payload of an inbound token, and build a host error.
use vstd::prelude::*;
use cosmwasm_std::{StdError, OverflowError, OverflowOperation};
use cw721::Cw721ExecuteMsg;

verus! {

/// The JSON encoding of a cw721 `TransferNft` instruction, if it can be encoded.
pub uninterp spec fn transfer_nft_json(recipient: Seq<char>, token_id: Seq<char>) -> Option<Seq<u8>>;

/// The JSON encoding of a cw721 `SendNft` instruction with an empty payload, if it can be encoded.
pub uninterp spec fn send_nft_json(contract: Seq<char>, token_id: Seq<char>) -> Option<Seq<u8>>;

/// The string that the bytes hold as a JSON string, if they hold one.
pub uninterp spec fn json_string_of(bytes: Seq<u8>) -> Option<Seq<char>>;

/// Relies on cosmwasm_std::to_json_vec over cw721's `TransferNft`: a function of its fields.
#[verifier::external_body]
pub(crate) fn encode_transfer(recipient: &String, token_id: &String) -> (r: Result<Vec<u8>, StdError>)
    ensures
        r is Ok <==> transfer_nft_json(recipient@, token_id@) is Some,
        r matches Ok(b) ==> transfer_nft_json(recipient@, token_id@) == Some(b@),
{
    cosmwasm_std::to_json_vec(
        &Cw721ExecuteMsg::TransferNft { recipient: recipient.clone(), token_id: token_id.clone() },
    )
}

/// Relies on cosmwasm_std::to_json_vec over cw721's `SendNft` with an empty
/// payload: a function of its fields.
#[verifier::external_body]
pub(crate) fn encode_send(contract: &String, token_id: &String) -> (r: Result<Vec<u8>, StdError>)
    ensures
        r is Ok <==> send_nft_json(contract@, token_id@) is Some,
        r matches Ok(b) ==> send_nft_json(contract@, token_id@) == Some(b@),
{
    cosmwasm_std::to_json_vec(
        &Cw721ExecuteMsg::SendNft {
            contract: contract.clone(),
            token_id: token_id.clone(),
            msg: cosmwasm_std::Binary::from(Vec::<u8>::new()),
        },
    )
}

/// Relies on cosmwasm_std::from_json::<String>: the result depends on the bytes alone.
#[verifier::external_body]
pub(crate) fn decode_string(bytes: &Vec<u8>) -> (r: Result<String, StdError>)
    ensures
        r is Ok <==> json_string_of(bytes@) is Some,
        r matches Ok(s) ==> json_string_of(bytes@) == Some(s@),
{
    cosmwasm_std::from_json::<String>(bytes)
}

/// Relies on cosmwasm_std's `StdError::overflow` to report that `count + 1` does not fit.
#[verifier::external_body]
pub(crate) fn overflow_error(count: u64) -> StdError {
    StdError::overflow(OverflowError::new(OverflowOperation::Add, count, 1u64))
}

} // verus!
