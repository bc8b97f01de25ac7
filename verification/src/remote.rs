//! What a call to the minting service can come back with.

use vstd::prelude::*;

verus! {

/// Appending to a `String` (`String::push_str`): the new text is the old text
/// followed by the slice, as std documents it.
pub assume_specification[ String::push_str ](text: &mut String, tail: &str)
    ensures
        final(text)@ == old(text)@ + tail@,
;

/// The state of a mint as the engine tells states apart.
#[derive(Clone, Copy, Debug, PartialEq, Eq, Structural)]
pub enum RemoteStatus {
    /// Not resolved yet.
    Pending,
    /// Created.
    Succeeded,
    /// Rejected by the service.
    Failed,
}

/// Why a call to the service produced no usable answer.
#[derive(Debug)]
pub enum RemoteError {
    /// The request did not complete; the text is the transport's account of it.
    Transport(String),
    /// The reply could not be read as the expected document; the text says why.
    Unreadable(String),
    /// The service answered with errors; these are their messages, in order.
    Rejected(Vec<String>),
    /// The reply held neither errors nor data.
    MissingData,
}

/// A remote error as a mathematical value.
pub enum RemoteErrorView {
    Transport(Seq<char>),
    Unreadable(Seq<char>),
    Rejected(Seq<Seq<char>>),
    MissingData,
}

/// The texts of a sequence of strings, in order.
pub open spec fn texts(strings: Seq<String>) -> Seq<Seq<char>> {
    strings.map_values(|s: String| s@)
}

impl View for RemoteError {
    type V = RemoteErrorView;

    open spec fn view(&self) -> RemoteErrorView {
        match self {
            RemoteError::Transport(d) => RemoteErrorView::Transport(d@),
            RemoteError::Unreadable(d) => RemoteErrorView::Unreadable(d@),
            RemoteError::Rejected(m) => RemoteErrorView::Rejected(texts(m@)),
            RemoteError::MissingData => RemoteErrorView::MissingData,
        }
    }
}

/// A call's result with its error, if any, as a mathematical value.
pub open spec fn seen<T>(result: Result<T, RemoteError>) -> Result<T, RemoteErrorView> {
    match result {
        Ok(value) => Ok(value),
        Err(error) => Err(error@),
    }
}

/// The text that std's `Debug` gives a list of strings with these texts:
/// the list in square brackets, each string quoted and escaped.
pub uninterp spec fn debug_list(messages: Seq<Seq<char>>) -> Seq<char>;

/// Renders a list of strings as std's `Debug` formatting does (`{:?}` on a
/// `Vec<String>`). The rendering depends on the strings' texts alone;
/// nothing more is claimed of it.
#[verifier::external_body]
fn render_list(messages: &Vec<String>) -> (text: String)
    ensures
        text@ == debug_list(texts(messages@)),
{
    format!("{:?}", messages)
}

/// The human-readable account of a remote error.
pub open spec fn detail_of(error: RemoteErrorView) -> Seq<char> {
    match error {
        RemoteErrorView::Transport(d) => d,
        RemoteErrorView::Unreadable(d) => d,
        RemoteErrorView::Rejected(m) => "GraphQL Errors: "@ + debug_list(m),
        RemoteErrorView::MissingData => "Data is missing from the response"@,
    }
}

impl RemoteError {
    /// The human-readable account of the error, as it goes into a record's reason.
    pub fn detail(&self) -> (text: String)
        ensures
            text@ == detail_of(self@),
    {
        match self {
            RemoteError::Transport(d) => d.clone(),
            RemoteError::Unreadable(d) => d.clone(),
            RemoteError::Rejected(m) => {
                let mut text = "GraphQL Errors: ".to_owned();
                let list = render_list(m);
                text.push_str(list.as_str());
                text
            },
            RemoteError::MissingData => "Data is missing from the response".to_owned(),
        }
    }
}

/// What one look at an in-flight mint found.
#[derive(Debug)]
pub enum Checked {
    /// The service reports the mint as created.
    Succeeded,
    /// The service reports the mint as failed.
    Failed,
    /// The service reports any other state, or was not asked.
    Pending,
    /// The status call itself failed; the text is the error's detail.
    Error(String),
}

/// A finding as a mathematical value.
pub enum CheckedView {
    Succeeded,
    Failed,
    Pending,
    Error(Seq<char>),
}

impl View for Checked {
    type V = CheckedView;

    open spec fn view(&self) -> CheckedView {
        match self {
            Checked::Succeeded => CheckedView::Succeeded,
            Checked::Failed => CheckedView::Failed,
            Checked::Pending => CheckedView::Pending,
            Checked::Error(d) => CheckedView::Error(d@),
        }
    }
}

/// The finding that a status stands for.
pub open spec fn finding_of_status(status: RemoteStatus) -> CheckedView {
    match status {
        RemoteStatus::Succeeded => CheckedView::Succeeded,
        RemoteStatus::Failed => CheckedView::Failed,
        RemoteStatus::Pending => CheckedView::Pending,
    }
}

impl Checked {
    /// The finding that a reported status stands for.
    pub fn from_status(status: RemoteStatus) -> (checked: Checked)
        ensures
            checked@ == finding_of_status(status),
    {
        match status {
            RemoteStatus::Succeeded => Checked::Succeeded,
            RemoteStatus::Failed => Checked::Failed,
            RemoteStatus::Pending => Checked::Pending,
        }
    }
}

} // verus!
