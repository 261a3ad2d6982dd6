//! What can go wrong.

use vstd::prelude::*;
use vstd::string::*;

verus! {

/// What can go wrong. The variants that a refresh meets carry the
/// human-readable account that ends up in the feed's refresh log.
#[derive(Debug)]
pub enum AppError {
    /// The feed document could not be downloaded.
    FetchFailure(String),
    /// A link of an item or of a channel is no absolute URL.
    ParseFailure(String),
    /// The storage rejected a write.
    PersistenceFailure(String),
    /// The icon of a feed could not be had.
    IconResolutionFailure(String),
    /// A password does not match the stored hash.
    Unauthorized,
    /// No user bears the name.
    UserNotFound,
    /// No password is stored for the user.
    NoPassword,
}

/// An error as a value of mathematics.
pub enum AppErrorView {
    FetchFailure(Seq<char>),
    ParseFailure(Seq<char>),
    PersistenceFailure(Seq<char>),
    IconResolutionFailure(Seq<char>),
    Unauthorized,
    UserNotFound,
    NoPassword,
}

impl DeepView for AppError {
    type V = AppErrorView;

    open spec fn deep_view(&self) -> AppErrorView {
        match self {
            AppError::FetchFailure(m) => AppErrorView::FetchFailure(m@),
            AppError::ParseFailure(m) => AppErrorView::ParseFailure(m@),
            AppError::PersistenceFailure(m) => AppErrorView::PersistenceFailure(m@),
            AppError::IconResolutionFailure(m) => AppErrorView::IconResolutionFailure(m@),
            AppError::Unauthorized => AppErrorView::Unauthorized,
            AppError::UserNotFound => AppErrorView::UserNotFound,
            AppError::NoPassword => AppErrorView::NoPassword,
        }
    }
}

impl AppErrorView {
    /// The account that the error carries.
    pub open spec fn text(self) -> Seq<char> {
        match self {
            AppErrorView::FetchFailure(m) => m,
            AppErrorView::ParseFailure(m) => m,
            AppErrorView::PersistenceFailure(m) => m,
            AppErrorView::IconResolutionFailure(m) => m,
            AppErrorView::Unauthorized => "unauthorized"@,
            AppErrorView::UserNotFound => "user not found"@,
            AppErrorView::NoPassword => "no password"@,
        }
    }
}

impl AppError {
    /// The account that the error carries, as a string of its own.
    pub fn message(&self) -> (r: String)
        ensures
            r@ == self.deep_view().text(),
    {
        match self {
            AppError::FetchFailure(m) => m.clone(),
            AppError::ParseFailure(m) => m.clone(),
            AppError::PersistenceFailure(m) => m.clone(),
            AppError::IconResolutionFailure(m) => m.clone(),
            AppError::Unauthorized => String::from_str("unauthorized"),
            AppError::UserNotFound => String::from_str("user not found"),
            AppError::NoPassword => String::from_str("no password"),
        }
    }
}

impl AppError {
    /// A copy of the error.
    pub fn duplicate(&self) -> (r: AppError)
        ensures
            r.deep_view() == self.deep_view(),
    {
        match self {
            AppError::FetchFailure(m) => AppError::FetchFailure(m.clone()),
            AppError::ParseFailure(m) => AppError::ParseFailure(m.clone()),
            AppError::PersistenceFailure(m) => AppError::PersistenceFailure(m.clone()),
            AppError::IconResolutionFailure(m) => AppError::IconResolutionFailure(m.clone()),
            AppError::Unauthorized => AppError::Unauthorized,
            AppError::UserNotFound => AppError::UserNotFound,
            AppError::NoPassword => AppError::NoPassword,
        }
    }
}

} // verus!
