//! The database session of one executor.
//!
//! A session pins one connection and gates it behind one transaction at a
//! time. It decides what is sent over that connection; the sending itself is
//! left to whoever holds the connection.

use crate::error::{IndexerError, IndexerResult};
use crate::manifest::Manifest;
use crate::schema::{
    assignments, columns_in, columns_of, find_table, get_sql, get_statement,
    lemma_absent_has_none, lemma_column_added, lemma_first_is_one, lemma_table_added,
    qualified_name, schema_name, schema_name_of, table_in, update_list, upsert_sql,
    upsert_statement, ColumnRow, GuestMetadata, TableColumns,
};
use crate::text::views;
use std::collections::HashMap;
use vstd::prelude::*;
use vstd::string::*;

verus! {

broadcast use vstd::std_specs::hash::group_hash_axioms;

/// A statement that opens or closes a transaction.
#[derive(Clone, Copy, Debug, PartialEq, Eq, Structural)]
pub enum Statement {
    Begin,
    Commit,
    Rollback,
}

impl Statement {
    /// The text of the statement.
    pub open spec fn text(self) -> Seq<char> {
        match self {
            Statement::Begin => "BEGIN"@,
            Statement::Commit => "COMMIT"@,
            Statement::Rollback => "ROLLBACK"@,
        }
    }

    /// The text of the statement.
    pub fn sql(&self) -> (sql: String)
        ensures
            sql@ == self.text(),
    {
        match self {
            Statement::Begin => String::from_str("BEGIN"),
            Statement::Commit => String::from_str("COMMIT"),
            Statement::Rollback => String::from_str("ROLLBACK"),
        }
    }
}

/// The write of one entity: the statement and the entity that is bound to
/// its parameter `$1`.
#[derive(Debug, PartialEq, Eq)]
pub struct PutObject {
    pub query: String,
    pub bytes: Vec<u8>,
}

/// Whether the session has a transaction open. Only the session itself
/// opens and closes one.
#[derive(Debug)]
pub struct Session {
    transaction_open: bool,
}

impl Session {
    /// Whether a transaction is open.
    pub closed spec fn in_transaction(&self) -> bool {
        self.transaction_open
    }

    /// A session without a transaction.
    pub fn new() -> (session: Session)
        ensures
            !session.in_transaction(),
    {
        Session { transaction_open: false }
    }

    /// Whether a transaction is open.
    pub fn is_in_transaction(&self) -> (open: bool)
        ensures
            open == self.in_transaction(),
    {
        self.transaction_open
    }

    /// Opens a transaction and says whether none was open before.
    fn open(&mut self) -> (opened: bool)
        ensures
            final(self).in_transaction(),
            opened == !old(self).in_transaction(),
    {
        let opened = !self.transaction_open;
        self.transaction_open = true;
        opened
    }

    /// Closes the transaction and says whether one was open.
    fn close(&mut self) -> (closed: bool)
        ensures
            !final(self).in_transaction(),
            closed == old(self).in_transaction(),
    {
        let closed = self.transaction_open;
        self.transaction_open = false;
        closed
    }
}

/// The database of one executor: the state of its session and the schema
/// map of its index.
#[derive(Debug)]
pub struct Database {
    pub session: Session,
    pub namespace: String,
    pub identifier: String,
    pub version: String,
    /// The columns of each table, under the table's full name.
    pub schema: Vec<TableColumns>,
    /// The full name of the table of each entity type.
    pub tables: HashMap<i64, String>,
}

/// The full name of the table that `tables` has for the entity type
/// `type_id`, if it has one.
pub open spec fn table_at(tables: Map<i64, String>, type_id: i64) -> Option<Seq<char>> {
    if tables.contains_key(type_id) {
        Some(tables[type_id]@)
    } else {
        None
    }
}

/// What a write of `values` as an entity of type `type_id` comes to: the
/// text of the statement, or the reason why there is none.
pub open spec fn put_outcome(db: Database, type_id: i64, values: Seq<Seq<char>>) -> Result<
    Seq<char>,
    IndexerError,
> {
    if !db.in_transaction() {
        Err(IndexerError::NoTransactionError)
    } else {
        match db.table_of(type_id) {
            None => Err(IndexerError::UnknownTypeId { type_id }),
            Some(table) => {
                let columns = db.columns_of(table);
                if columns.len() != values.len() + 1 {
                    Err(
                        IndexerError::ColumnCountMismatch {
                            columns: columns.len() as usize,
                            values: values.len() as usize,
                        },
                    )
                } else {
                    Ok(
                        upsert_sql(
                            table,
                            columns,
                            values,
                            assignments(columns, values, values.len()),
                        ),
                    )
                }
            },
        }
    }
}

/// What a read of the entity `object_id` of type `type_id` comes to: the text
/// of the statement, or the reason why there is none.
pub open spec fn get_outcome(db: Database, type_id: i64, object_id: u64) -> Result<
    Seq<char>,
    IndexerError,
> {
    if !db.in_transaction() {
        Err(IndexerError::NoTransactionError)
    } else {
        match db.table_of(type_id) {
            None => Err(IndexerError::UnknownTypeId { type_id }),
            Some(table) => Ok(get_sql(table, object_id)),
        }
    }
}

impl Database {
    /// Whether a transaction is open.
    pub open spec fn in_transaction(&self) -> bool {
        self.session.in_transaction()
    }

    /// The full name of the table of the entity type `type_id`, if the schema
    /// map knows the type.
    pub open spec fn table_of(&self, type_id: i64) -> Option<Seq<char>> {
        table_at(self.tables@, type_id)
    }

    /// The columns of the table with the full name `table`, in order.
    pub open spec fn columns_of(&self, table: Seq<char>) -> Seq<Seq<char>> {
        columns_of(self.schema@, table)
    }

    /// The name of the schema that holds the tables of the index.
    pub open spec fn schema_name(&self) -> Seq<char> {
        schema_name(self.namespace@, self.identifier@)
    }

    /// Whether `other` is the database of the same index with the same
    /// schema map.
    pub open spec fn same_index(&self, other: &Database) -> bool {
        &&& self.namespace == other.namespace
        &&& self.identifier == other.identifier
        &&& self.version == other.version
        &&& self.schema == other.schema
        &&& self.tables == other.tables
    }

    /// A session without a transaction, for an index that is still to be loaded.
    pub fn new() -> (db: Database)
        ensures
            !db.in_transaction(),
            db.namespace@ == Seq::<char>::empty(),
            db.identifier@ == Seq::<char>::empty(),
            db.version@ == Seq::<char>::empty(),
            db.schema@ == Seq::<TableColumns>::empty(),
            db.tables@ == Map::<i64, String>::empty(),
    {
        Database {
            session: Session::new(),
            namespace: String::new(),
            identifier: String::new(),
            version: String::new(),
            schema: Vec::new(),
            tables: HashMap::new(),
        }
    }

    /// Whether a transaction is open.
    pub fn is_in_transaction(&self) -> (open: bool)
        ensures
            open == self.in_transaction(),
    {
        self.session.is_in_transaction()
    }

    /// Opens a transaction, unless one is open already.
    pub fn start_transaction(&mut self) -> (r: IndexerResult<Statement>)
        ensures
            final(self).same_index(old(self)),
            final(self).in_transaction(),
            r == (if old(self).in_transaction() {
                Err::<Statement, IndexerError>(IndexerError::TransactionAlreadyOpen)
            } else {
                Ok::<Statement, IndexerError>(Statement::Begin)
            }),
    {
        if self.session.open() {
            Ok(Statement::Begin)
        } else {
            Err(IndexerError::TransactionAlreadyOpen)
        }
    }

    /// Commits the open transaction.
    pub fn commit_transaction(&mut self) -> (r: IndexerResult<Statement>)
        ensures
            final(self).same_index(old(self)),
            !final(self).in_transaction(),
            r == (if old(self).in_transaction() {
                Ok::<Statement, IndexerError>(Statement::Commit)
            } else {
                Err::<Statement, IndexerError>(IndexerError::NoTransactionError)
            }),
    {
        if self.session.close() {
            Ok(Statement::Commit)
        } else {
            Err(IndexerError::NoTransactionError)
        }
    }

    /// Rolls the open transaction back.
    pub fn revert_transaction(&mut self) -> (r: IndexerResult<Statement>)
        ensures
            final(self).same_index(old(self)),
            !final(self).in_transaction(),
            r == (if old(self).in_transaction() {
                Ok::<Statement, IndexerError>(Statement::Rollback)
            } else {
                Err::<Statement, IndexerError>(IndexerError::NoTransactionError)
            }),
    {
        if self.session.close() {
            Ok(Statement::Rollback)
        } else {
            Err(IndexerError::NoTransactionError)
        }
    }

    /// The statement that writes an entity to `table`.
    pub fn upsert_query(
        &self,
        table: &str,
        columns: &Vec<String>,
        inserts: Vec<String>,
        updates: Vec<String>,
    ) -> (sql: String)
        ensures
            sql@ == upsert_sql(table@, views(columns@), views(inserts@), views(updates@)),
    {
        upsert_statement(table, columns, &inserts, &updates)
    }

    /// The name of the schema that holds the tables of the index.
    pub fn namespace(&self) -> (name: String)
        ensures
            name@ == self.schema_name(),
    {
        schema_name_of(self.namespace.as_str(), self.identifier.as_str())
    }

    /// The statement that reads the entity `object_id` from `table`.
    pub fn get_query(&self, table: &str, object_id: u64) -> (sql: String)
        ensures
            sql@ == get_sql(table@, object_id),
    {
        get_statement(table, object_id)
    }

    /// The columns of the table with the full name `table`.
    fn columns(&self, table: &str) -> (columns: Vec<String>)
        ensures
            views(columns@) == self.columns_of(table@),
    {
        match find_table(&self.schema, table) {
            Some(at) => {
                proof {
                    lemma_first_is_one(self.schema@, at as int, table@);
                }
                let found = &self.schema[at].columns;
                let mut columns: Vec<String> = Vec::new();
                let mut i: usize = 0;
                while i < found.len()
                    invariant
                        i <= found.len(),
                        columns.len() == i,
                        forall|j: int| 0 <= j < i ==> columns@[j]@ == found@[j]@,
                    decreases found.len() - i,
                {
                    columns.push(found[i].clone());
                    i = i + 1;
                }
                assert(views(columns@) =~= views(found@));
                columns
            },
            None => {
                proof {
                    lemma_absent_has_none(self.schema@, table@);
                }
                let columns: Vec<String> = Vec::new();
                assert(views(columns@) =~= Seq::<Seq<char>>::empty());
                columns
            },
        }
    }

    /// Writes an entity of type `type_id`: `columns` are the values of its
    /// columns, in the order of the schema map, and `bytes` is the entity
    /// itself. A transaction has to be open, the type has to be known and
    /// the values have to be one fewer than the columns of its table, the last
    /// of which holds the entity.
    pub fn put_object(&self, type_id: i64, columns: Vec<String>, bytes: Vec<u8>) -> (r:
        IndexerResult<PutObject>)
        ensures
            match put_outcome(*self, type_id, views(columns@)) {
                Ok(sql) => r is Ok && r->Ok_0.query@ == sql && r->Ok_0.bytes == bytes,
                Err(error) => r == Err::<PutObject, IndexerError>(error),
            },
            r is Ok ==> self.in_transaction() && self.table_of(type_id) is Some && self.columns_of(
                self.table_of(type_id)->0,
            ).len() == columns.len() + 1,
    {
        if !self.session.is_in_transaction() {
            return Err(IndexerError::NoTransactionError);
        }
        let table = match self.tables.get(&type_id) {
            Some(table) => table,
            None => {
                return Err(IndexerError::UnknownTypeId { type_id });
            },
        };
        let names = self.columns(table.as_str());
        if names.len() == 0 || names.len() - 1 != columns.len() {
            return Err(
                IndexerError::ColumnCountMismatch { columns: names.len(), values: columns.len() },
            );
        }
        let updates = update_list(&names, &columns);
        let query = self.upsert_query(table.as_str(), &names, columns, updates);
        Ok(PutObject { query, bytes })
    }

    /// Reads the entity `object_id` of type `type_id`. A transaction has to be
    /// open and the type has to be known.
    pub fn get_object(&self, type_id: i64, object_id: u64) -> (r: IndexerResult<String>)
        ensures
            match get_outcome(*self, type_id, object_id) {
                Ok(sql) => r is Ok && r->Ok_0@ == sql,
                Err(error) => r == Err::<String, IndexerError>(error),
            },
    {
        if !self.session.is_in_transaction() {
            return Err(IndexerError::NoTransactionError);
        }
        match self.tables.get(&type_id) {
            Some(table) => Ok(self.get_query(table.as_str(), object_id)),
            None => Err(IndexerError::UnknownTypeId { type_id }),
        }
    }

    /// Loads the schema map of the index of `manifest` from the rows of the
    /// schema registry.
    ///
    /// A native index is named by its manifest and has the newest version
    /// that the registry knows, `latest_version`. A sandboxed index is what
    /// its guest says it is, so the metadata of the guest has to be there.
    /// Each row adds its column to its table; the first row of an entity
    /// type says which table the type is written to.
    pub fn load_schema(
        &mut self,
        manifest: &Manifest,
        instance: Option<GuestMetadata>,
        latest_version: String,
        columns: &Vec<ColumnRow>,
    ) -> (r: IndexerResult<()>)
        ensures
            final(self).session == old(self).session,
            !manifest.native() && instance is None ==> {
                &&& r == Err::<(), IndexerError>(IndexerError::MissingInstance)
                &&& final(self).same_index(old(self))
            },
            manifest.native() || instance is Some ==> {
                &&& r is Ok
                &&& final(self).namespace@ == loaded_identity(*manifest, instance, latest_version).0
                &&& final(self).identifier@ == loaded_identity(*manifest, instance, latest_version).1
                &&& final(self).version@ == loaded_identity(*manifest, instance, latest_version).2
                &&& forall|type_id: i64| #[trigger]
                    final(self).table_of(type_id) == (match old(self).table_of(type_id) {
                        Some(table) => Some(table),
                        None => table_in(columns@, final(self).schema_name(), type_id),
                    })
                &&& forall|table: Seq<char>| #[trigger]
                    final(self).columns_of(table) == old(self).columns_of(table) + columns_in(
                        columns@,
                        final(self).schema_name(),
                        table,
                    )
            },
    {
        if manifest.is_native() {
            self.namespace = manifest.namespace.clone();
            self.identifier = manifest.identifier.clone();
            self.version = latest_version;
        } else {
            match instance {
                Some(guest) => {
                    self.namespace = guest.namespace;
                    self.identifier = guest.identifier;
                    self.version = guest.version;
                },
                None => {
                    return Err(IndexerError::MissingInstance);
                },
            }
        }
        let schema = self.namespace();
        let ghost rows = columns@;
        let ghost tables_before = self.tables@;
        let ghost schema_before = self.schema@;
        let ghost loaded = *self;
        assert forall|table: Seq<char>|
            columns_of(self.schema@, table) == #[trigger] columns_of(schema_before, table)
                + columns_in(rows.take(0), schema@, table) by {
            assert(columns_of(schema_before, table) + Seq::<Seq<char>>::empty() =~= columns_of(
                schema_before,
                table,
            ));
        }
        let mut i: usize = 0;
        while i < columns.len()
            invariant
                i <= columns.len(),
                rows == columns@,
                self.session == loaded.session,
                self.namespace == loaded.namespace,
                self.identifier == loaded.identifier,
                self.version == loaded.version,
                schema@ == self.schema_name(),
                forall|type_id: i64| #[trigger]
                    table_at(self.tables@, type_id) == (if tables_before.contains_key(type_id) {
                        Some(tables_before[type_id]@)
                    } else {
                        table_in(rows.take(i as int), schema@, type_id)
                    }),
                forall|table: Seq<char>|
                    columns_of(self.schema@, table) == #[trigger] columns_of(schema_before, table)
                        + columns_in(rows.take(i as int), schema@, table),
            decreases columns.len() - i,
        {
            let row = &columns[i];
            let table = qualified_name(schema.as_str(), row.table_name.as_str());
            let ghost seen = rows.take(i as int);
            let ghost next = rows.take(i + 1);
            let ghost tables_now = self.tables@;
            let ghost schema_now = self.schema@;
            proof {
                assert(next.drop_last() =~= seen);
                assert(next.last() == rows[i as int]);
            }
            if !self.tables.contains_key(&row.type_id) {
                self.tables.insert(row.type_id, table.clone());
            }
            assert forall|type_id: i64| #[trigger]
                table_at(self.tables@, type_id) == (if tables_before.contains_key(type_id) {
                    Some(tables_before[type_id]@)
                } else {
                    table_in(next, schema@, type_id)
                }) by {
                assert(table_at(tables_now, type_id) == (if tables_before.contains_key(type_id) {
                    Some(tables_before[type_id]@)
                } else {
                    table_in(seen, schema@, type_id)
                }));
                if tables_before.contains_key(type_id) {
                    assert(tables_now.contains_key(type_id));
                }
            }
            match find_table(&self.schema, table.as_str()) {
                Some(at) => {
                    self.schema[at].columns.push(row.column_name.clone());
                    proof {
                        assert forall|key: Seq<char>|
                            columns_of(self.schema@, key) == #[trigger] columns_of(
                                schema_before,
                                key,
                            ) + columns_in(next, schema@, key) by {
                            lemma_column_added(
                                schema_now,
                                self.schema@,
                                at as int,
                                row.column_name@,
                                key,
                            );
                            assert(columns_of(schema_now, key) == columns_of(schema_before, key)
                                + columns_in(seen, schema@, key));
                            if key == table@ {
                                assert((columns_of(schema_before, key) + columns_in(
                                    seen,
                                    schema@,
                                    key,
                                )).push(row.column_name@) =~= columns_of(schema_before, key)
                                    + columns_in(seen, schema@, key).push(row.column_name@));
                            }
                        }
                    }
                },
                None => {
                    let mut first: Vec<String> = Vec::new();
                    first.push(row.column_name.clone());
                    let entry = TableColumns { table, columns: first };
                    proof {
                        assert(views(entry.columns@) =~= seq![row.column_name@]);
                        assert forall|key: Seq<char>|
                            columns_of(schema_now.push(entry), key) == #[trigger] columns_of(
                                schema_before,
                                key,
                            ) + columns_in(next, schema@, key) by {
                            lemma_table_added(schema_now, entry, key);
                            assert(columns_of(schema_now, key) == columns_of(schema_before, key)
                                + columns_in(seen, schema@, key));
                            if key == entry.table@ {
                                lemma_absent_has_none(schema_now, key);
                                assert(seq![row.column_name@] =~= (columns_of(schema_before, key)
                                    + columns_in(seen, schema@, key)).push(row.column_name@));
                                assert((columns_of(schema_before, key) + columns_in(
                                    seen,
                                    schema@,
                                    key,
                                )).push(row.column_name@) =~= columns_of(schema_before, key)
                                    + columns_in(seen, schema@, key).push(row.column_name@));
                            }
                        }
                    }
                    self.schema.push(entry);
                },
            }
            i = i + 1;
        }
        proof {
            assert(rows.take(columns.len() as int) =~= rows);
        }
        Ok(())
    }
}

/// The namespace, the identifier and the version that a schema load gives
/// the database: those of the manifest and the newest version of the
/// registry for a native index, those of the guest for a sandboxed one.
pub open spec fn loaded_identity(
    manifest: Manifest,
    instance: Option<GuestMetadata>,
    latest_version: String,
) -> (Seq<char>, Seq<char>, Seq<char>) {
    if manifest.native() {
        (manifest.namespace@, manifest.identifier@, latest_version@)
    } else {
        (instance->0.namespace@, instance->0.identifier@, instance->0.version@)
    }
}

} // verus!
