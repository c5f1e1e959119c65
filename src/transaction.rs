use vstd::prelude::*;
use crate::value::ClientError;

verus! {

/// The state of a connection's single transaction and the outcome of a
/// request to begin one holding `tx`.
pub open spec fn after_begin<T>(s: Option<T>, tx: T) -> (Option<T>, Result<(), ClientError>) {
    match s {
        Some(_) => (s, Err(ClientError::TransactionConflict)),
        None => (Some(tx), Ok(())),
    }
}

/// Holds at most one active transaction handle of a connection.
pub struct TransactionSlot<T> {
    tx: Option<T>,
}

impl<T> View for TransactionSlot<T> {
    type V = Option<T>;

    closed spec fn view(&self) -> Option<T> {
        self.tx
    }
}

impl<T> TransactionSlot<T> {
    /// A slot with no transaction.
    pub fn new() -> (r: TransactionSlot<T>)
        ensures
            r@ is None,
    {
        TransactionSlot { tx: None }
    }

    pub fn is_active(&self) -> (r: bool)
        ensures
            r == self@ is Some,
    {
        self.tx.is_some()
    }

    /// Whether a transaction may begin: it may not while one is active.
    pub fn check_begin(&self) -> (r: Result<(), ClientError>)
        ensures
            r == if self@ is Some {
                Err(ClientError::TransactionConflict)
            } else {
                Ok(())
            },
    {
        if self.tx.is_some() {
            Err(ClientError::TransactionConflict)
        } else {
            Ok(())
        }
    }

    /// Makes `tx` the active transaction. While another one is active this
    /// fails with `TransactionConflict`, keeps the active one and drops `tx`.
    pub fn begin(&mut self, tx: T) -> (r: Result<(), ClientError>)
        ensures
            (final(self)@, r) == after_begin(old(self)@, tx),
    {
        if self.tx.is_some() {
            Err(ClientError::TransactionConflict)
        } else {
            self.tx = Some(tx);
            Ok(())
        }
    }

    /// Removes and returns the active transaction, to commit or roll it back.
    pub fn take(&mut self) -> (r: Option<T>)
        ensures
            r == old(self)@,
            final(self)@ is None,
    {
        self.tx.take()
    }

    /// The active transaction, if any.
    pub fn current(&self) -> (r: Option<&T>)
        ensures
            r is Some <==> self@ is Some,
            r matches Some(t) ==> self@ == Some(*t),
    {
        match &self.tx {
            Some(t) => Some(t),
            None => None,
        }
    }
}

/// Beginning a second transaction while one is active fails with
/// `TransactionConflict` and leaves the first one active, so that it can
/// still be taken and committed.
pub proof fn lemma_second_begin_conflicts<T>(first: T, second: T)
    ensures
        after_begin(None, first) == (Some(first), Ok::<(), ClientError>(())),
        after_begin(Some(first), second) == (Some(first), Err::<(), ClientError>(
            ClientError::TransactionConflict,
        )),
{
}

} // verus!
