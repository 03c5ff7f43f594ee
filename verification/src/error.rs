//! The errors of the indexer runtime and how each is treated.

use vstd::prelude::*;

verus! {

/// What can go wrong while an index is registered, run or retired.
#[derive(Clone, Copy, Debug, PartialEq, Eq, Structural)]
pub enum IndexerError {
    /// A session operation needed an open transaction and none was open.
    NoTransactionError,
    /// A transaction was started while another one was still open.
    TransactionAlreadyOpen,
    /// The guest wrote or read an entity of a type that the schema does not know.
    UnknownTypeId { type_id: i64 },
    /// The guest wrote an entity whose values are not one fewer than the
    /// columns of its table.
    ColumnCountMismatch { columns: usize, values: usize },
    /// A sandboxed index was loaded without the metadata of its guest.
    MissingInstance,
    /// A bad manifest or a missing schema.
    Configuration,
    /// The database or the node could not be reached.
    Transport,
    /// The guest trapped or its handler returned an error.
    GuestFault,
    /// The block height that follows the last committed one cannot be represented.
    HeightOverflow,
    /// No identifier is left for another executor.
    ExecutorsExhausted,
}

pub type IndexerResult<T> = Result<T, IndexerError>;

impl IndexerError {
    /// Only transport errors are worth a retry of the same blocks.
    pub open spec fn retryable(self) -> bool {
        self == IndexerError::Transport
    }

    /// Whether the work that failed should be tried again unchanged.
    pub fn is_retryable(&self) -> (r: bool)
        ensures
            r == self.retryable(),
    {
        match self {
            IndexerError::Transport => true,
            _ => false,
        }
    }
}

} // verus!
