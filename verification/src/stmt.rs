//! The cache entry for statements of a PostgreSQL connection.

use vstd::prelude::*;
use postgres::{Client, Error, Statement, Transaction};
use crate::entry::{CacheEntry, EntryView, lends, answer, settled};

verus! {

/// `postgres::Client`, a blocking connection to a database server. Nothing
/// is known of what it holds.
#[verifier::external_type_specification]
#[verifier::external_body]
pub struct ExClient(postgres::Client);

/// `postgres::Transaction`, an open transaction on a connection. Nothing is
/// known of what it holds.
#[verifier::external_type_specification]
#[verifier::external_body]
pub struct ExTransaction<'a>(postgres::Transaction<'a>);

/// `postgres::Statement`, the driver's handle of a prepared statement.
/// Nothing is known of what it holds.
#[verifier::external_type_specification]
#[verifier::external_body]
pub struct ExStatement(postgres::Statement);

/// `postgres::Error`, the driver's report of a failure. Nothing is known of
/// what it holds.
#[verifier::external_type_specification]
#[verifier::external_body]
pub struct ExError(postgres::Error);

/// `postgres::Client::prepare` sends the query text to the server and
/// returns the statement's handle or the server's or the connection's
/// failure. The answer depends on the server, so nothing is claimed of it.
pub assume_specification[ postgres::Client::prepare ](
    client: &mut Client,
    query: &str,
) -> Result<Statement, Error>;

/// `postgres::Transaction::prepare` does what `postgres::Client::prepare`
/// does, on the connection that the transaction runs on. Nothing is claimed
/// of its answer either.
pub assume_specification<'a>[ postgres::Transaction::<'a>::prepare ](
    transaction: &mut Transaction<'a>,
    query: &str,
) -> Result<Statement, Error>;

/// Cached statement
pub struct Stmt {
    entry: CacheEntry<Statement>,
}

impl View for Stmt {
    type V = EntryView<Statement>;

    closed spec fn view(&self) -> EntryView<Statement> {
        self.entry@
    }
}

impl Stmt {
    /// Makes a cached statement for `query`. The query is not sent
    /// anywhere: the result remembers no handle.
    #[must_use]
    pub fn new(query: &'static str) -> (stmt: Self)
        ensures
            stmt@.query_text == query@,
            stmt@.cached is None,
    {
        Stmt { entry: CacheEntry::new(query) }
    }

    /// The query text the statement was made with.
    pub fn query(&self) -> (text: &'static str)
        ensures
            text@ == self@.query_text,
    {
        self.entry.query()
    }

    /// The remembered handle, if there is one. While there is one,
    /// `prepare` does not reach for the connection.
    pub fn cached(&self) -> (found: Option<&Statement>)
        ensures
            found is Some ==> self@.cached == Some(*found->Some_0),
            found is None ==> self@.cached is None,
    {
        self.entry.cached()
    }

    /// Completes one use of the statement with the driver's answer
    /// `outcome`, as `CacheEntry::settle` does.
    pub fn settle(&mut self, outcome: Result<Statement, Error>) -> (given: Result<&Statement, Error>)
        ensures
            final(self)@.query_text == old(self)@.query_text,
            final(self)@.cached == settled(old(self)@.cached, outcome),
            lends(given, answer(old(self)@.cached, outcome)),
    {
        self.entry.settle(outcome)
    }

    /// Returns the statement's handle, calling `prepare` on the query text
    /// if no handle is remembered yet, as `CacheEntry::resolve` does.
    pub fn resolve<F>(&mut self, prepare: F) -> (given: Result<&Statement, Error>)
        where
            F: FnOnce(&'static str) -> Result<Statement, Error>,
        requires
            old(self)@.cached is None ==> forall|text: &'static str|
                text@ == old(self)@.query_text ==> prepare.requires((text,)),
        ensures
            final(self)@.query_text == old(self)@.query_text,
            old(self)@.cached is Some ==> final(self)@.cached == old(self)@.cached && lends(
                given,
                Ok::<Statement, Error>(old(self)@.cached->Some_0),
            ),
            old(self)@.cached is None ==> exists|text: &'static str, outcome: Result<Statement, Error>|
                text@ == old(self)@.query_text && prepare.ensures((text,), outcome)
                    && final(self)@.cached == settled(None::<Statement>, outcome)
                    && lends(given, outcome),
    {
        self.entry.resolve(prepare)
    }

    /// Returns the statement's handle, preparing the query on `client`
    /// if no handle is remembered yet.
    ///
    /// A remembered handle is returned as it is and stays in place. With
    /// none remembered, the driver's answer decides: its handle is kept and
    /// returned, or its failure is returned and nothing is kept, so that the
    /// next call asks again.
    pub fn prepare(&mut self, client: &mut Client) -> (given: Result<&Statement, Error>)
        ensures
            final(self)@.query_text == old(self)@.query_text,
            old(self)@.cached is Some ==> final(self)@.cached == old(self)@.cached,
            given is Ok ==> final(self)@.cached == Some(*given->Ok_0),
            given is Err ==> final(self)@.cached is None,
    {
        if self.entry.needs_prepare() {
            let outcome = client.prepare(self.entry.query());
            self.entry.settle(outcome)
        } else {
            Ok(self.entry.cached().unwrap())
        }
    }

    /// Does what `prepare` does, inside an open transaction.
    pub fn prepare_in(&mut self, transaction: &mut Transaction<'_>) -> (given: Result<&Statement, Error>)
        ensures
            final(self)@.query_text == old(self)@.query_text,
            old(self)@.cached is Some ==> final(self)@.cached == old(self)@.cached,
            given is Ok ==> final(self)@.cached == Some(*given->Ok_0),
            given is Err ==> final(self)@.cached is None,
    {
        if self.entry.needs_prepare() {
            let outcome = transaction.prepare(self.entry.query());
            self.entry.settle(outcome)
        } else {
            Ok(self.entry.cached().unwrap())
        }
    }
}

} // verus!
