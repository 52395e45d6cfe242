//! What the repository asks of a database connection, and what comes back.
use vstd::prelude::*;

use crate::sql::Statement;
use crate::sql::StatementView;

verus! {

/// A user group as it is stored.
pub struct UserGroup {
    pub id: i64,
    pub name: String,
    pub remark: String,
    pub allow_all_groups: bool,
    pub created_at: String,
}

/// The model of a `UserGroup`.
#[verifier::ext_equal]
pub struct UserGroupView {
    pub id: i64,
    pub name: Seq<char>,
    pub remark: Seq<char>,
    pub allow_all_groups: bool,
    pub created_at: Seq<char>,
}

impl View for UserGroup {
    type V = UserGroupView;

    open spec fn view(&self) -> UserGroupView {
        UserGroupView {
            id: self.id,
            name: self.name@,
            remark: self.remark@,
            allow_all_groups: self.allow_all_groups,
            created_at: self.created_at@,
        }
    }
}

/// What is to be done next. What lies between `Begin` and `Commit` goes through one
/// transaction, which is rolled back if it is left before `Commit`.
pub enum DbAction {
    /// Open a transaction.
    Begin,
    /// Run a statement and count the rows that it changed.
    Execute(Statement),
    /// Read all rows, each one id.
    FetchIds(Statement),
    /// Read the first row, one truth value, if there is one.
    FetchFlag(Statement),
    /// Read the one row, one number.
    FetchCount(Statement),
    /// Read the first row, one user group, if there is one.
    FetchGroup(Statement),
    /// Commit the transaction.
    Commit,
    /// Return the result.
    Return,
}

/// The model of a `DbAction`.
#[verifier::ext_equal]
pub enum DbActionView {
    Begin,
    Execute(StatementView),
    FetchIds(StatementView),
    FetchFlag(StatementView),
    FetchCount(StatementView),
    FetchGroup(StatementView),
    Commit,
    Return,
}

impl View for DbAction {
    type V = DbActionView;

    open spec fn view(&self) -> DbActionView {
        match *self {
            DbAction::Begin => DbActionView::Begin,
            DbAction::Execute(s) => DbActionView::Execute(s@),
            DbAction::FetchIds(s) => DbActionView::FetchIds(s@),
            DbAction::FetchFlag(s) => DbActionView::FetchFlag(s@),
            DbAction::FetchCount(s) => DbActionView::FetchCount(s@),
            DbAction::FetchGroup(s) => DbActionView::FetchGroup(s@),
            DbAction::Commit => DbActionView::Commit,
            DbAction::Return => DbActionView::Return,
        }
    }
}

/// What came of an action; `E` is the error of the database.
pub enum DbReply<E> {
    Begun,
    Affected(u64),
    Ids(Vec<i64>),
    Flag(Option<bool>),
    Count(i64),
    Group(Option<UserGroup>),
    Committed,
    Failed(E),
}

/// The model of a `DbReply`.
#[verifier::ext_equal]
pub enum DbReplyView<E> {
    Begun,
    Affected(u64),
    Ids(Seq<i64>),
    Flag(Option<bool>),
    Count(i64),
    Group(Option<UserGroupView>),
    Committed,
    Failed(E),
}

impl<E> View for DbReply<E> {
    type V = DbReplyView<E>;

    open spec fn view(&self) -> DbReplyView<E> {
        match *self {
            DbReply::Begun => DbReplyView::Begun,
            DbReply::Affected(n) => DbReplyView::Affected(n),
            DbReply::Ids(ids) => DbReplyView::Ids(ids@),
            DbReply::Flag(flag) => DbReplyView::Flag(flag),
            DbReply::Count(n) => DbReplyView::Count(n),
            DbReply::Group(Some(group)) => DbReplyView::Group(Some(group@)),
            DbReply::Group(None) => DbReplyView::Group(None),
            DbReply::Committed => DbReplyView::Committed,
            DbReply::Failed(e) => DbReplyView::Failed(e),
        }
    }
}

/// Why an operation on the repository failed.
pub enum DbError<E> {
    /// There is no such row.
    NotFound,
    /// The database failed.
    Database(E),
}

} // verus!
