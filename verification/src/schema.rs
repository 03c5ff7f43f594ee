//! The schema map of an index: which table each entity type is written to,
//! which columns each table has and in what order, and the SQL that writes
//! and reads an entity.

use crate::text::{decimal, decimal_string, join, join_strings, views};
use vstd::prelude::*;
use vstd::string::*;

verus! {

/// One row of the schema registry: a column of the table of an entity type.
#[derive(Debug, PartialEq, Eq)]
pub struct ColumnRow {
    pub type_id: i64,
    pub table_name: String,
    pub column_name: String,
}

/// The columns of one table, in the order in which the guest gives their values.
#[derive(Debug, PartialEq, Eq)]
pub struct TableColumns {
    pub table: String,
    pub columns: Vec<String>,
}

/// What the guest of a sandboxed index says of itself.
#[derive(Debug, PartialEq, Eq)]
pub struct GuestMetadata {
    pub namespace: String,
    pub identifier: String,
    pub version: String,
}

/// The name of the schema that holds the tables of an index: namespace,
/// an underscore, identifier.
pub open spec fn schema_name(namespace: Seq<char>, identifier: Seq<char>) -> Seq<char> {
    namespace + seq!['_'] + identifier
}

/// The full name of a table: the name of its schema, a dot, the table.
pub open spec fn qualified(schema: Seq<char>, table: Seq<char>) -> Seq<char> {
    schema + seq!['.'] + table
}

/// Whether entry `i` of `schema` is the first one for `table`.
pub open spec fn first_for(schema: Seq<TableColumns>, i: int, table: Seq<char>) -> bool {
    &&& 0 <= i < schema.len()
    &&& schema[i].table@ == table
    &&& forall|j: int| 0 <= j < i ==> (#[trigger] schema[j]).table@ != table
}

/// The columns that `schema` has for `table`, in order; none for a table that
/// it does not hold.
pub open spec fn columns_of(schema: Seq<TableColumns>, table: Seq<char>) -> Seq<Seq<char>> {
    if exists|i: int| first_for(schema, i, table) {
        views(schema[choose|i: int| first_for(schema, i, table)].columns@)
    } else {
        Seq::empty()
    }
}

/// The table that `rows` give to the entity type `type_id`: that of the first
/// row of the type, under its full name.
pub open spec fn table_in(rows: Seq<ColumnRow>, schema: Seq<char>, type_id: i64) -> Option<
    Seq<char>,
>
    decreases rows.len(),
{
    if rows.len() == 0 {
        None
    } else {
        match table_in(rows.drop_last(), schema, type_id) {
            Some(table) => Some(table),
            None => if rows.last().type_id == type_id {
                Some(qualified(schema, rows.last().table_name@))
            } else {
                None
            },
        }
    }
}

/// The columns that `rows` give to the table with the full name `table`, in
/// the order of the rows.
pub open spec fn columns_in(rows: Seq<ColumnRow>, schema: Seq<char>, table: Seq<char>) -> Seq<
    Seq<char>,
>
    decreases rows.len(),
{
    if rows.len() == 0 {
        Seq::empty()
    } else if qualified(schema, rows.last().table_name@) == table {
        columns_in(rows.drop_last(), schema, table).push(rows.last().column_name@)
    } else {
        columns_in(rows.drop_last(), schema, table)
    }
}

/// The assignments of an upsert: for each of the first `n` columns but `id`,
/// the column, ` = ` and its value.
pub open spec fn assignments(columns: Seq<Seq<char>>, values: Seq<Seq<char>>, n: nat) -> Seq<
    Seq<char>,
>
    decreases n,
{
    if n == 0 {
        Seq::empty()
    } else {
        let before = assignments(columns, values, (n - 1) as nat);
        if columns[n - 1] == "id"@ {
            before
        } else {
            before.push(columns[n - 1] + " = "@ + values[n - 1])
        }
    }
}

/// The statement that writes an entity: an insert of the given values and of
/// the entity itself, bound as `$1`, which on an `id` that exists turns into
/// an update.
pub open spec fn upsert_sql(
    table: Seq<char>,
    columns: Seq<Seq<char>>,
    inserts: Seq<Seq<char>>,
    updates: Seq<Seq<char>>,
) -> Seq<char> {
    "INSERT INTO "@ + table + " ("@ + join(columns, ", "@) + ")\nVALUES ("@ + join(inserts, ", "@)
        + ", $1)\nON CONFLICT (id)\nDO UPDATE SET "@ + join(updates, ", "@)
}

/// The statement that reads the entity with the given id.
pub open spec fn get_sql(table: Seq<char>, object_id: u64) -> Seq<char> {
    "SELECT object FROM "@ + table + " WHERE id = "@ + decimal(object_id as nat)
}

/// Builds the name of the schema of the index `identifier` of `namespace`.
pub fn schema_name_of(namespace: &str, identifier: &str) -> (name: String)
    ensures
        name@ == schema_name(namespace@, identifier@),
{
    proof {
        reveal_strlit("_");
    }
    let mut name = String::from_str(namespace);
    name.append("_");
    name.append(identifier);
    assert("_"@ =~= seq!['_']);
    name
}

/// Builds the full name of `table` in `schema`.
pub fn qualified_name(schema: &str, table: &str) -> (name: String)
    ensures
        name@ == qualified(schema@, table@),
{
    proof {
        reveal_strlit(".");
    }
    let mut name = String::from_str(schema);
    name.append(".");
    name.append(table);
    assert("."@ =~= seq!['.']);
    name
}

/// Builds the statement that writes an entity to `table`.
pub fn upsert_statement(
    table: &str,
    columns: &Vec<String>,
    inserts: &Vec<String>,
    updates: &Vec<String>,
) -> (sql: String)
    ensures
        sql@ == upsert_sql(table@, views(columns@), views(inserts@), views(updates@)),
{
    let mut sql = String::from_str("INSERT INTO ");
    sql.append(table);
    sql.append(" (");
    sql.append(join_strings(columns, ", ").as_str());
    sql.append(")\nVALUES (");
    sql.append(join_strings(inserts, ", ").as_str());
    sql.append(", $1)\nON CONFLICT (id)\nDO UPDATE SET ");
    sql.append(join_strings(updates, ", ").as_str());
    sql
}

/// Builds the statement that reads the entity `object_id` from `table`.
pub fn get_statement(table: &str, object_id: u64) -> (sql: String)
    ensures
        sql@ == get_sql(table@, object_id),
{
    let mut sql = String::from_str("SELECT object FROM ");
    sql.append(table);
    sql.append(" WHERE id = ");
    sql.append(decimal_string(object_id).as_str());
    sql
}

/// Builds the assignments of an upsert of `values` into `columns`: one for
/// each column that has a value and is not `id`.
pub fn update_list(columns: &Vec<String>, values: &Vec<String>) -> (updates: Vec<String>)
    ensures
        views(updates@) == assignments(
            views(columns@),
            views(values@),
            if values.len() <= columns.len() {
                values.len() as nat
            } else {
                columns.len() as nat
            },
        ),
{
    let id = String::from_str("id");
    let pairs = if values.len() <= columns.len() {
        values.len()
    } else {
        columns.len()
    };
    let mut updates: Vec<String> = Vec::new();
    let mut i: usize = 0;
    while i < pairs
        invariant
            i <= pairs,
            pairs <= values.len(),
            pairs <= columns.len(),
            id@ == "id"@,
            views(updates@) == assignments(views(columns@), views(values@), i as nat),
        decreases pairs - i,
    {
        let ghost before = views(updates@);
        if columns[i] != id {
            let mut update = columns[i].clone();
            update.append(" = ");
            update.append(values[i].as_str());
            updates.push(update);
            assert(views(updates@) =~= before.push(columns@[i as int]@ + " = "@ + values@[i as int]@));
        }
        i = i + 1;
    }
    updates
}

/// The place of the first entry for `table` in `schema`, if there is one.
pub fn find_table(schema: &Vec<TableColumns>, table: &str) -> (at: Option<usize>)
    ensures
        match at {
            Some(i) => first_for(schema@, i as int, table@),
            None => forall|i: int| 0 <= i < schema.len() ==> (#[trigger] schema@[i]).table@ != table@,
        },
{
    let wanted = String::from_str(table);
    let mut i: usize = 0;
    while i < schema.len()
        invariant
            i <= schema.len(),
            wanted@ == table@,
            forall|j: int| 0 <= j < i ==> (#[trigger] schema@[j]).table@ != table@,
        decreases schema.len() - i,
    {
        if schema[i].table == wanted {
            return Some(i);
        }
        i = i + 1;
    }
    None
}

/// The first entry for a table is the only first one.
pub proof fn lemma_first_is_one(schema: Seq<TableColumns>, i: int, table: Seq<char>)
    requires
        first_for(schema, i, table),
    ensures
        columns_of(schema, table) == views(schema[i].columns@),
{
    let j = choose|j: int| first_for(schema, j, table);
    assert(first_for(schema, j, table));
    if j < i {
        assert(schema[j].table@ != table);
    }
    if i < j {
        assert(schema[i].table@ != table);
    }
}

/// A table without an entry has no columns.
pub proof fn lemma_absent_has_none(schema: Seq<TableColumns>, table: Seq<char>)
    requires
        forall|i: int| 0 <= i < schema.len() ==> (#[trigger] schema[i]).table@ != table,
    ensures
        columns_of(schema, table) == Seq::<Seq<char>>::empty(),
{
    if exists|i: int| first_for(schema, i, table) {
        let i = choose|i: int| first_for(schema, i, table);
        assert(schema[i].table@ != table);
    }
}

/// One more column at the end of the first entry for a table is one more
/// column of that table, and changes no other table.
pub proof fn lemma_column_added(
    before: Seq<TableColumns>,
    after: Seq<TableColumns>,
    at: int,
    column: Seq<char>,
    table: Seq<char>,
)
    requires
        first_for(before, at, before[at].table@),
        after.len() == before.len(),
        after[at].table@ == before[at].table@,
        after[at].columns@.len() == before[at].columns@.len() + 1,
        forall|k: int|
            0 <= k < before[at].columns@.len() ==> (#[trigger] after[at].columns@[k])@
                == before[at].columns@[k]@,
        after[at].columns@.last()@ == column,
        forall|j: int| 0 <= j < before.len() && j != at ==> #[trigger] after[j] == before[j],
    ensures
        columns_of(after, table) == (if table == before[at].table@ {
            columns_of(before, table).push(column)
        } else {
            columns_of(before, table)
        }),
{
    assert forall|j: int| 0 <= j < before.len() implies (#[trigger] after[j]).table@
        == before[j].table@ by {
        if j != at {
            assert(after[j] == before[j]);
        }
    }
    if exists|i: int| first_for(before, i, table) {
        let i = choose|i: int| first_for(before, i, table);
        assert forall|j: int| 0 <= j < i implies (#[trigger] after[j]).table@ != table by {
            assert(before[j].table@ != table);
        }
        assert(first_for(after, i, table));
        lemma_first_is_one(before, i, table);
        lemma_first_is_one(after, i, table);
        if table == before[at].table@ {
            lemma_first_is_one(before, at, table);
            if i < at {
                assert(before[i].table@ != table);
            }
            if at < i {
                assert(before[at].table@ != table);
            }
            assert(views(after[at].columns@) =~= views(before[at].columns@).push(column));
        } else {
            assert(after[i] == before[i]);
        }
    } else {
        assert forall|i: int| 0 <= i < after.len() implies (#[trigger] after[i]).table@
            != table by {
            if before[i].table@ == table {
                lemma_has_first(before, i, table);
            }
        }
        lemma_absent_has_none(after, table);
    }
}

/// A table that has an entry has a first one.
pub proof fn lemma_has_first(schema: Seq<TableColumns>, i: int, table: Seq<char>)
    requires
        0 <= i < schema.len(),
        schema[i].table@ == table,
    ensures
        exists|j: int| first_for(schema, j, table),
    decreases i,
{
    if exists|j: int| 0 <= j < i && (#[trigger] schema[j]).table@ == table {
        let j = choose|j: int| 0 <= j < i && (#[trigger] schema[j]).table@ == table;
        lemma_has_first(schema, j, table);
    } else {
        assert(first_for(schema, i, table));
    }
}

/// An entry for a table that had none gives that table its columns, and
/// changes no other table.
pub proof fn lemma_table_added(before: Seq<TableColumns>, entry: TableColumns, table: Seq<char>)
    requires
        forall|i: int| 0 <= i < before.len() ==> (#[trigger] before[i]).table@ != entry.table@,
    ensures
        columns_of(before.push(entry), table) == (if table == entry.table@ {
            views(entry.columns@)
        } else {
            columns_of(before, table)
        }),
{
    let after = before.push(entry);
    if table == entry.table@ {
        assert forall|j: int| 0 <= j < before.len() implies (#[trigger] after[j]).table@
            != table by {
            assert(before[j].table@ != table);
        }
        assert(first_for(after, before.len() as int, table));
        lemma_first_is_one(after, before.len() as int, table);
    } else if exists|i: int| first_for(before, i, table) {
        let i = choose|i: int| first_for(before, i, table);
        assert forall|j: int| 0 <= j < i implies (#[trigger] after[j]).table@ != table by {
            assert(before[j].table@ != table);
        }
        assert(first_for(after, i, table));
        lemma_first_is_one(before, i, table);
        lemma_first_is_one(after, i, table);
    } else {
        assert forall|i: int| 0 <= i < after.len() implies (#[trigger] after[i]).table@
            != table by {
            if i < before.len() && before[i].table@ == table {
                lemma_has_first(before, i, table);
            }
        }
        lemma_absent_has_none(after, table);
    }
}

/// The columns of a table are the columns of its rows, in the order of the
/// rows.
pub proof fn lemma_columns_are_the_rows_of_the_table(
    rows: Seq<ColumnRow>,
    schema: Seq<char>,
    table: Seq<char>,
)
    ensures
        columns_in(rows, schema, table) == rows.filter(
            |row: ColumnRow| qualified(schema, row.table_name@) == table,
        ).map_values(|row: ColumnRow| row.column_name@),
    decreases rows.len(),
{
    let of_table = |row: ColumnRow| qualified(schema, row.table_name@) == table;
    let column = |row: ColumnRow| row.column_name@;
    reveal(Seq::filter);
    if rows.len() > 0 {
        lemma_columns_are_the_rows_of_the_table(rows.drop_last(), schema, table);
        let before = rows.drop_last().filter(of_table);
        if of_table(rows.last()) {
            assert(rows.filter(of_table) == before.push(rows.last()));
            assert(before.push(rows.last()).map_values(column) =~= before.map_values(column).push(
                rows.last().column_name@,
            ));
        } else {
            assert(rows.filter(of_table) == before);
        }
    } else {
        assert(rows.filter(of_table).map_values(column) =~= Seq::<Seq<char>>::empty());
    }
}

/// The table of an entity type is the table of the first row of the type,
/// and a type without a row has no table.
pub proof fn lemma_first_row_names_the_table(rows: Seq<ColumnRow>, schema: Seq<char>, type_id: i64)
    ensures
        match table_in(rows, schema, type_id) {
            Some(table) => exists|i: int|
                0 <= i < rows.len() && (#[trigger] rows[i]).type_id == type_id && table
                    == qualified(schema, rows[i].table_name@) && forall|j: int|
                    0 <= j < i ==> (#[trigger] rows[j]).type_id != type_id,
            None => forall|i: int| 0 <= i < rows.len() ==> (#[trigger] rows[i]).type_id != type_id,
        },
    decreases rows.len(),
{
    if rows.len() > 0 {
        let earlier = rows.drop_last();
        lemma_first_row_names_the_table(earlier, schema, type_id);
        match table_in(earlier, schema, type_id) {
            Some(table) => {
                let i = choose|i: int|
                    0 <= i < earlier.len() && (#[trigger] earlier[i]).type_id == type_id && table
                        == qualified(schema, earlier[i].table_name@) && forall|j: int|
                        0 <= j < i ==> (#[trigger] earlier[j]).type_id != type_id;
                assert(rows[i] == earlier[i]);
                assert forall|j: int| 0 <= j < i implies (#[trigger] rows[j]).type_id
                    != type_id by {
                    assert(rows[j] == earlier[j]);
                }
            },
            None => {
                assert forall|j: int| 0 <= j < rows.len() - 1 implies (#[trigger] rows[j]).type_id
                    != type_id by {
                    assert(rows[j] == earlier[j]);
                }
                if rows.last().type_id == type_id {
                    let i = rows.len() - 1;
                    assert(rows[i].type_id == type_id);
                }
            },
        }
    }
}

} // verus!
