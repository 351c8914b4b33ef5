//! What can go wrong with a profile command.
use vstd::prelude::*;

verus! {

/// Why a profile command was refused.
#[derive(Debug, PartialEq, Eq)]
pub enum ProfileError {
    /// No profile has this name.
    NotFound(String),
    /// A profile of this name is there already.
    AlreadyExists(String),
    /// A new profile was given no name.
    EmptyName,
    /// A new profile was given no model.
    EmptyModel,
    /// The user did not go on.
    Aborted,
    /// The provider of the tested profile could not be reached.
    ConnectivityFailed,
}

/// What a [`ProfileError`] says.
pub enum ProfileErrorView {
    NotFound(Seq<char>),
    AlreadyExists(Seq<char>),
    EmptyName,
    EmptyModel,
    Aborted,
    ConnectivityFailed,
}

impl ProfileErrorView {
    /// The message that the user sees.
    pub open spec fn message_text(self) -> Seq<char> {
        match self {
            ProfileErrorView::NotFound(name) => "profile '"@ + name + "' not found"@,
            ProfileErrorView::AlreadyExists(name) => "profile '"@ + name + "' already exists"@,
            ProfileErrorView::EmptyName => "profile name cannot be empty"@,
            ProfileErrorView::EmptyModel => "model name cannot be empty"@,
            ProfileErrorView::Aborted => "aborted"@,
            ProfileErrorView::ConnectivityFailed => "connectivity test failed"@,
        }
    }
}

impl View for ProfileError {
    type V = ProfileErrorView;

    open spec fn view(&self) -> ProfileErrorView {
        match self {
            ProfileError::NotFound(name) => ProfileErrorView::NotFound(name@),
            ProfileError::AlreadyExists(name) => ProfileErrorView::AlreadyExists(name@),
            ProfileError::EmptyName => ProfileErrorView::EmptyName,
            ProfileError::EmptyModel => ProfileErrorView::EmptyModel,
            ProfileError::Aborted => ProfileErrorView::Aborted,
            ProfileError::ConnectivityFailed => ProfileErrorView::ConnectivityFailed,
        }
    }
}

impl ProfileError {
    /// The message that the user sees.
    pub fn message(&self) -> (result: String)
        ensures
            result@ == self@.message_text(),
    {
        match self {
            ProfileError::NotFound(name) => {
                let mut text: String = "profile '".to_owned();
                text.append(name.as_str());
                text.append("' not found");
                text
            },
            ProfileError::AlreadyExists(name) => {
                let mut text: String = "profile '".to_owned();
                text.append(name.as_str());
                text.append("' already exists");
                text
            },
            ProfileError::EmptyName => "profile name cannot be empty".to_owned(),
            ProfileError::EmptyModel => "model name cannot be empty".to_owned(),
            ProfileError::Aborted => "aborted".to_owned(),
            ProfileError::ConnectivityFailed => "connectivity test failed".to_owned(),
        }
    }
}

/// What the user is told: an error that is about a profile gives its name in quotation marks, and
/// each error has words of its own.
pub proof fn law_error_messages(error: ProfileErrorView, name: Seq<char>)
    ensures
        error == ProfileErrorView::NotFound(name) ==> error.message_text() == "profile '"@ + name
            + "' not found"@,
        error == ProfileErrorView::AlreadyExists(name) ==> error.message_text() == "profile '"@
            + name + "' already exists"@,
        error is EmptyName ==> error.message_text() == "profile name cannot be empty"@,
        error is EmptyModel ==> error.message_text() == "model name cannot be empty"@,
        error is Aborted ==> error.message_text() == "aborted"@,
        error is ConnectivityFailed ==> error.message_text() == "connectivity test failed"@,
{
}

} // verus!
