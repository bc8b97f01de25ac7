//! What the replies to the three requests of a run amount to.

use vstd::prelude::*;
use crate::graphql::{
    answer, status_taken, CollectionMint, GraphQLResponse, MintData, MintResponse,
    MintStatusResponse, RetryMintResponse,
};
use crate::ids::{parse_uuid, uuid_value};
use crate::remote::{detail_of, finding_of_status, seen, Checked, CheckedView, RemoteError, RemoteErrorView};

verus! {

/// What a mint reply amounts to, as a mathematical value.
pub open spec fn minted(reply: GraphQLResponse<MintResponse>) -> Result<CollectionMint, RemoteErrorView> {
    match answer(reply) {
        Ok(data) => Ok(data.mint_to_collection.collection_mint),
        Err(error) => Err(error),
    }
}

/// What a retry reply amounts to, as a mathematical value.
pub open spec fn retried(reply: GraphQLResponse<RetryMintResponse>) -> Result<
    CollectionMint,
    RemoteErrorView,
> {
    match answer(reply) {
        Ok(data) => Ok(data.retry_mint_to_collection.collection_mint),
        Err(error) => Err(error),
    }
}

/// What a status reply amounts to, as a mathematical value.
pub open spec fn reported(reply: GraphQLResponse<MintStatusResponse>) -> Result<
    MintData,
    RemoteErrorView,
> {
    match answer(reply) {
        Ok(data) => Ok(data.mint),
        Err(error) => Err(error),
    }
}

/// What a status call's result means for the mint it asked about.
pub open spec fn found(result: Result<MintData, RemoteError>) -> CheckedView {
    match result {
        Ok(data) => finding_of_status(status_taken(data.creation_status@)),
        Err(error) => CheckedView::Error(detail_of(error@)),
    }
}

/// Completes a mint request from the service's reply: the mint it created,
/// or the error the reply amounts to.
pub fn execute(reply: GraphQLResponse<MintResponse>) -> (result: Result<CollectionMint, RemoteError>)
    ensures
        seen(result) == minted(reply),
{
    match reply.into_result() {
        Ok(data) => Ok(data.mint_to_collection.collection_mint),
        Err(error) => Err(error),
    }
}

/// Completes a retry request from the service's reply: the mint it retried,
/// or the error the reply amounts to.
pub fn retry(reply: GraphQLResponse<RetryMintResponse>) -> (result: Result<CollectionMint, RemoteError>)
    ensures
        seen(result) == retried(reply),
{
    match reply.into_result() {
        Ok(data) => Ok(data.retry_mint_to_collection.collection_mint),
        Err(error) => Err(error),
    }
}

/// Completes a status request from the service's reply: the mint as the
/// service reports it, or the error the reply amounts to.
pub fn check_status(reply: GraphQLResponse<MintStatusResponse>) -> (result: Result<MintData, RemoteError>)
    ensures
        seen(result) == reported(reply),
{
    match reply.into_result() {
        Ok(data) => Ok(data.mint),
        Err(error) => Err(error),
    }
}

/// What a status call's result means for the mint: the state the service
/// reported, taken as succeeded, failed or pending, or the detail of the
/// error the call ended in.
pub fn finding(result: &Result<MintData, RemoteError>) -> (checked: Checked)
    ensures
        checked@ == found(*result),
{
    match result {
        Ok(data) => Checked::from_status(data.creation_status.remote_status()),
        Err(error) => Checked::Error(error.detail()),
    }
}

/// The identifier of a mint as the service spelled it, or `None` where the
/// text spells no UUID.
pub fn mint_id(mint: &CollectionMint) -> (id: Option<u128>)
    ensures
        id == uuid_value(mint.id@),
{
    parse_uuid(mint.id.as_str())
}

} // verus!
