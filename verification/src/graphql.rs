//! The documents the minting service answers with.

use vstd::prelude::*;
use crate::remote::{seen, texts, RemoteError, RemoteErrorView, RemoteStatus};

verus! {

/// One error of a reply.
#[derive(Debug)]
pub struct GraphQLError {
    /// What went wrong, in the service's words.
    pub message: String,
    /// Where in the request it went wrong.
    pub _path: Vec<String>,
}

/// A reply: the data asked for, the errors met, or neither.
#[derive(Debug)]
pub struct GraphQLResponse<T> {
    pub data: Option<T>,
    pub errors: Option<Vec<GraphQLError>>,
}

/// A mint as a mint or retry request reports it.
#[derive(Debug)]
pub struct CollectionMint {
    /// The identifier of the mint, as text.
    pub id: String,
    /// The state of the mint, in the service's words.
    pub creation_status: String,
}

/// The payload of a retry reply.
#[derive(Debug)]
pub struct RetryMintToCollectionData {
    pub collection_mint: CollectionMint,
}

/// The payload of a mint reply.
#[derive(Debug)]
pub struct MintToCollectionData {
    pub collection_mint: CollectionMint,
}

/// The data of a mint reply.
#[derive(Debug)]
pub struct MintResponse {
    pub mint_to_collection: MintToCollectionData,
}

/// The data of a retry reply.
#[derive(Debug)]
pub struct RetryMintResponse {
    pub retry_mint_to_collection: RetryMintToCollectionData,
}

/// The state of a mint as a status request reports it.
#[derive(Debug)]
pub enum CreationStatus {
    CREATED,
    FAILED,
    PENDING,
    /// A state this engine has no name for, in the service's words.
    Other(String),
}

/// A mint as a status request reports it.
#[derive(Debug)]
pub struct MintData {
    /// The identifier of the mint, as text.
    pub id: String,
    /// The state of the mint.
    pub creation_status: CreationStatus,
}

/// The data of a status reply.
#[derive(Debug)]
pub struct MintStatusResponse {
    pub mint: MintData,
}

/// The messages of a sequence of errors, in order.
pub open spec fn messages_of(errors: Seq<GraphQLError>) -> Seq<Seq<char>> {
    errors.map_values(|e: GraphQLError| e.message@)
}

/// The state that a status text names: `CREATED`, `FAILED` and `PENDING`
/// name themselves, any other text is kept as it is.
pub open spec fn status_named(text: Seq<char>) -> CreationStatusView {
    if text == "CREATED"@ {
        CreationStatusView::CREATED
    } else if text == "FAILED"@ {
        CreationStatusView::FAILED
    } else if text == "PENDING"@ {
        CreationStatusView::PENDING
    } else {
        CreationStatusView::Other(text)
    }
}

/// A creation status as a mathematical value.
pub enum CreationStatusView {
    CREATED,
    FAILED,
    PENDING,
    Other(Seq<char>),
}

impl View for CreationStatus {
    type V = CreationStatusView;

    open spec fn view(&self) -> CreationStatusView {
        match self {
            CreationStatus::CREATED => CreationStatusView::CREATED,
            CreationStatus::FAILED => CreationStatusView::FAILED,
            CreationStatus::PENDING => CreationStatusView::PENDING,
            CreationStatus::Other(text) => CreationStatusView::Other(text@),
        }
    }
}

/// How the engine takes a creation status: created mints have succeeded,
/// failed ones have failed, and every other state counts as pending.
pub open spec fn status_taken(status: CreationStatusView) -> RemoteStatus {
    match status {
        CreationStatusView::CREATED => RemoteStatus::Succeeded,
        CreationStatusView::FAILED => RemoteStatus::Failed,
        _ => RemoteStatus::Pending,
    }
}

/// Whether a string holds exactly the given text.
fn reads(text: &String, literal: &str) -> (same: bool)
    ensures
        same == (text@ == literal@),
{
    *text == literal.to_owned()
}

impl CreationStatus {
    /// The state that a status text names.
    pub fn from_text(text: String) -> (status: CreationStatus)
        ensures
            status@ == status_named(text@),
    {
        if reads(&text, "CREATED") {
            CreationStatus::CREATED
        } else if reads(&text, "FAILED") {
            CreationStatus::FAILED
        } else if reads(&text, "PENDING") {
            CreationStatus::PENDING
        } else {
            CreationStatus::Other(text)
        }
    }

    /// How the engine takes this state.
    pub fn remote_status(&self) -> (status: RemoteStatus)
        ensures
            status == status_taken(self@),
    {
        match self {
            CreationStatus::CREATED => RemoteStatus::Succeeded,
            CreationStatus::FAILED => RemoteStatus::Failed,
            _ => RemoteStatus::Pending,
        }
    }
}

/// What a reply amounts to. Errors come first: a reply that lists errors is
/// rejected with their messages, whatever data it carries. Otherwise its data
/// is the answer, and a reply without data is an error of its own.
pub open spec fn answer<T>(reply: GraphQLResponse<T>) -> Result<T, RemoteErrorView> {
    match (reply.errors, reply.data) {
        (Some(errors), _) => Err(RemoteErrorView::Rejected(messages_of(errors@))),
        (None, Some(data)) => Ok(data),
        (None, None) => Err(RemoteErrorView::MissingData),
    }
}

/// The messages of the errors, in order.
fn messages(errors: &Vec<GraphQLError>) -> (list: Vec<String>)
    ensures
        texts(list@) == messages_of(errors@),
{
    let mut list: Vec<String> = Vec::new();
    let mut i: usize = 0;
    while i < errors.len()
        invariant
            i <= errors.len(),
            texts(list@) == messages_of(errors@.take(i as int)),
        decreases errors.len() - i,
    {
        let ghost before = list@;
        let message = errors[i].message.clone();
        list.push(message);
        proof {
            let grown = errors@.take(i as int + 1);
            assert(grown.drop_last() =~= errors@.take(i as int));
            assert(texts(before) =~= messages_of(grown).drop_last());
            assert(texts(list@) =~= texts(before).push(message@));
            assert(messages_of(grown).last() == errors@[i as int].message@);
            assert(texts(list@) =~= messages_of(grown));
        }
        i += 1;
    }
    proof {
        assert(errors@.take(i as int) =~= errors@);
    }
    list
}

impl<T> GraphQLResponse<T> {
    /// What the reply amounts to: its errors if it lists any, else its data,
    /// else the error of a reply that holds neither.
    pub fn into_result(self) -> (result: Result<T, RemoteError>)
        ensures
            seen(result) == answer(self),
    {
        match self.errors {
            Some(errors) => Err(RemoteError::Rejected(messages(&errors))),
            None => match self.data {
                Some(data) => Ok(data),
                None => Err(RemoteError::MissingData),
            },
        }
    }
}

} // verus!
