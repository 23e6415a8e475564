//! Domain events handed to the host, and the failures an operation reports.
use vstd::prelude::*;

verus! {

/// A change of state that the host is told about.
#[derive(Debug, Clone, PartialEq, Eq)]
pub enum Event {
    UserCreated { id: String, name: String },
    UserUpdated { id: String, name: String, bio: String },
    PostCreated { id: String, author_id: String, content: String, timestamp: u64 },
    PostLiked { id: String, user_id: String, user_name: String },
    PostUnliked { id: String, user_id: String },
    PostDeleted { id: String, author_id: String },
    TipSent {
        post_id: String,
        tipper_id: String,
        tipper_name: String,
        amount_usdc: String,
        tx_hash: String,
    },
    UserFollowed { follower_id: String, followee_id: String },
    UserUnfollowed { follower_id: String, followee_id: String },
}

/// An event as mathematical values.
pub enum EventView {
    UserCreated { id: Seq<char>, name: Seq<char> },
    UserUpdated { id: Seq<char>, name: Seq<char>, bio: Seq<char> },
    PostCreated { id: Seq<char>, author_id: Seq<char>, content: Seq<char>, timestamp: u64 },
    PostLiked { id: Seq<char>, user_id: Seq<char>, user_name: Seq<char> },
    PostUnliked { id: Seq<char>, user_id: Seq<char> },
    PostDeleted { id: Seq<char>, author_id: Seq<char> },
    TipSent {
        post_id: Seq<char>,
        tipper_id: Seq<char>,
        tipper_name: Seq<char>,
        amount_usdc: Seq<char>,
        tx_hash: Seq<char>,
    },
    UserFollowed { follower_id: Seq<char>, followee_id: Seq<char> },
    UserUnfollowed { follower_id: Seq<char>, followee_id: Seq<char> },
}

impl View for Event {
    type V = EventView;

    open spec fn view(&self) -> EventView {
        match self {
            Event::UserCreated { id, name } => EventView::UserCreated { id: id@, name: name@ },
            Event::UserUpdated { id, name, bio } => EventView::UserUpdated {
                id: id@,
                name: name@,
                bio: bio@,
            },
            Event::PostCreated { id, author_id, content, timestamp } => EventView::PostCreated {
                id: id@,
                author_id: author_id@,
                content: content@,
                timestamp: *timestamp,
            },
            Event::PostLiked { id, user_id, user_name } => EventView::PostLiked {
                id: id@,
                user_id: user_id@,
                user_name: user_name@,
            },
            Event::PostUnliked { id, user_id } => EventView::PostUnliked {
                id: id@,
                user_id: user_id@,
            },
            Event::PostDeleted { id, author_id } => EventView::PostDeleted {
                id: id@,
                author_id: author_id@,
            },
            Event::TipSent { post_id, tipper_id, tipper_name, amount_usdc, tx_hash } =>
                EventView::TipSent {
                post_id: post_id@,
                tipper_id: tipper_id@,
                tipper_name: tipper_name@,
                amount_usdc: amount_usdc@,
                tx_hash: tx_hash@,
            },
            Event::UserFollowed { follower_id, followee_id } => EventView::UserFollowed {
                follower_id: follower_id@,
                followee_id: followee_id@,
            },
            Event::UserUnfollowed { follower_id, followee_id } => EventView::UserUnfollowed {
                follower_id: follower_id@,
                followee_id: followee_id@,
            },
        }
    }
}

/// The class of a failure.
#[derive(Debug, Clone, Copy, PartialEq, Eq, Structural)]
pub enum ErrorKind {
    /// A referenced user or post does not exist.
    NotFound,
    /// The operation would break a uniqueness or state rule.
    Conflict,
    /// The caller is not the owner that the operation requires.
    Unauthorized,
}

/// Why an operation failed; each variant carries the ids it concerns.
#[derive(Debug, Clone, PartialEq, Eq)]
pub enum Error {
    /// No post has this id.
    PostNotFound(String),
    /// No user has this id (or no user is bound to this public key).
    UserNotFound(String),
    /// The public key is already bound to a user.
    PublicKeyTaken(String),
    /// A user tried to follow themself.
    SelfFollow(String),
    /// The follower already follows the followee.
    AlreadyFollowing(String, String),
    /// The requester (second) is not the author of the post (first).
    NotPostAuthor(String, String),
}

/// A failure as mathematical values.
pub enum ErrorView {
    PostNotFound(Seq<char>),
    UserNotFound(Seq<char>),
    PublicKeyTaken(Seq<char>),
    SelfFollow(Seq<char>),
    AlreadyFollowing(Seq<char>, Seq<char>),
    NotPostAuthor(Seq<char>, Seq<char>),
}

impl View for Error {
    type V = ErrorView;

    open spec fn view(&self) -> ErrorView {
        match self {
            Error::PostNotFound(a) => ErrorView::PostNotFound(a@),
            Error::UserNotFound(a) => ErrorView::UserNotFound(a@),
            Error::PublicKeyTaken(a) => ErrorView::PublicKeyTaken(a@),
            Error::SelfFollow(a) => ErrorView::SelfFollow(a@),
            Error::AlreadyFollowing(a, b) => ErrorView::AlreadyFollowing(a@, b@),
            Error::NotPostAuthor(a, b) => ErrorView::NotPostAuthor(a@, b@),
        }
    }
}

/// The class that each failure belongs to.
pub open spec fn kind_of(e: ErrorView) -> ErrorKind {
    match e {
        ErrorView::PostNotFound(_) | ErrorView::UserNotFound(_) => ErrorKind::NotFound,
        ErrorView::PublicKeyTaken(_) | ErrorView::SelfFollow(_) | ErrorView::AlreadyFollowing(
            _,
            _,
        ) => ErrorKind::Conflict,
        ErrorView::NotPostAuthor(_, _) => ErrorKind::Unauthorized,
    }
}

impl Error {
    /// The class of this failure.
    pub fn kind(&self) -> (r: ErrorKind)
        ensures
            r == kind_of(self@),
    {
        match self {
            Error::PostNotFound(_) | Error::UserNotFound(_) => ErrorKind::NotFound,
            Error::PublicKeyTaken(_) | Error::SelfFollow(_) | Error::AlreadyFollowing(_, _) =>
                ErrorKind::Conflict,
            Error::NotPostAuthor(_, _) => ErrorKind::Unauthorized,
        }
    }
}

} // verus!
