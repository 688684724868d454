//! The bulk writer: one parameterized insert for a whole batch.

use crate::config::{object_at, text_at, CObject, Section};
use crate::date::{canonical, canonical_date, placeholder, reformatted, CANONICAL};
use crate::error::{Fault, SyncError};
use crate::json::{field, fields};
use crate::record::{records, LogMessage, Record};
use crate::steps::{each, lemma_each_err, lemma_each_fails, lemma_each_next, lemma_each_ok};
use crate::text::{copies, join, joined, texts};
use vstd::prelude::*;

verus! {

/// One column of the table: the attribute that fills it and, for a date, the
/// format in which the attribute holds it.
#[derive(Debug, Clone)]
pub struct Column {
    pub name: String,
    pub attribute: String,
    pub format: Option<String>,
}

/// A [`Column`] as contracts see it.
pub struct ColumnView {
    pub name: Seq<char>,
    pub attribute: Seq<char>,
    pub format: Option<Seq<char>>,
}

impl View for Column {
    type V = ColumnView;

    open spec fn view(&self) -> ColumnView {
        ColumnView {
            name: self.name@,
            attribute: self.attribute@,
            format: match self.format {
                Some(format) => Some(format@),
                None => None,
            },
        }
    }
}

/// The sink for a ClickHouse table: where the store is, and how the
/// attributes of a record become the columns of a row.
#[derive(Debug)]
pub struct Clickhouse {
    columns: Vec<Column>,
    table: String,
    field: String,
    params: String,
    database: String,
    server: String,
    username: String,
    password: String,
}

/// A [`Clickhouse`] as contracts see it.
pub struct Sink {
    pub columns: Seq<ColumnView>,
    pub table: Seq<char>,
    pub database: Seq<char>,
    pub server: Seq<char>,
    pub username: Seq<char>,
    pub password: Seq<char>,
}

/// The columns that the settings describe: one for each entry of `mapping`,
/// in order, named by the entry and filled from the attribute that the entry
/// names, with the format that `formats` holds under the column's name.
pub open spec fn columns_of(
    mapping: Seq<(Seq<char>, CObject)>,
    formats: Seq<(Seq<char>, CObject)>,
) -> Seq<ColumnView> {
    Seq::new(
        mapping.len(),
        |i: int|
            ColumnView {
                name: mapping[i].0,
                attribute: mapping[i].1.text(),
                format: text_at(formats, mapping[i].0),
            },
    )
}

/// The names of `columns`, in order.
pub open spec fn names(columns: Seq<ColumnView>) -> Seq<Seq<char>> {
    Seq::new(columns.len(), |i: int| columns[i].name)
}

/// The column list of the statement: the names, separated by a comma and a
/// space.
pub open spec fn column_list(columns: Seq<ColumnView>) -> Seq<char> {
    joined(names(columns), ", "@)
}

/// The parameters of one row: a question mark for each column, separated by a
/// comma and a space, in round brackets.
pub open spec fn row_parameters(columns: Seq<ColumnView>) -> Seq<char> {
    "("@ + joined(copies("?"@, columns.len()), ", "@) + ")"@
}

/// The text of the insert for `rows` rows.
pub open spec fn statement(table: Seq<char>, columns: Seq<ColumnView>, rows: nat) -> Seq<char> {
    "INSERT INTO "@ + table + " ("@ + column_list(columns) + ") VALUES\n"@ + joined(
        copies(row_parameters(columns), rows),
        ", "@,
    )
}

/// The message that names the first setting of the sink that `conf` lacks.
pub open spec fn sender_missing(conf: Seq<(Seq<char>, CObject)>) -> Option<Seq<char>> {
    if object_at(conf, "sender"@) is None {
        Some("Environment variable 'sender' could not be found."@)
    } else {
        let sender = object_at(conf, "sender"@)->0@;
        if object_at(sender, "mapping"@) is None {
            Some("Environment variable 'sender.mapping' could not be found."@)
        } else if object_at(sender, "date-format"@) is None {
            Some("Environment variable 'sender.date-format' could not be found."@)
        } else if object_at(sender, "clickhouse"@) is None {
            Some("Environment variable 'sender.clickhouse' could not be found."@)
        } else {
            let store = object_at(sender, "clickhouse"@)->0@;
            if text_at(store, "database"@) is None {
                Some("Environment variable 'sender.database' could not be found."@)
            } else if text_at(store, "table"@) is None {
                Some("Environment variable 'sender.table' could not be found."@)
            } else if text_at(store, "server"@) is None {
                Some("Environment variable 'sender.server' could not be found."@)
            } else if text_at(store, "username"@) is None {
                Some("Environment variable 'sender.username' could not be found."@)
            } else if text_at(store, "password"@) is None {
                Some("Environment variable 'sender.password' could not be found."@)
            } else {
                None
            }
        }
    }
}

/// The sink that `conf` describes, where it lacks no setting.
pub open spec fn sender_settings(conf: Seq<(Seq<char>, CObject)>) -> Sink {
    let sender = object_at(conf, "sender"@)->0@;
    let store = object_at(sender, "clickhouse"@)->0@;
    Sink {
        columns: columns_of(
            object_at(sender, "mapping"@)->0@,
            object_at(sender, "date-format"@)->0@,
        ),
        table: text_at(store, "table"@)->0,
        database: text_at(store, "database"@)->0,
        server: text_at(store, "server"@)->0,
        username: text_at(store, "username"@)->0,
        password: text_at(store, "password"@)->0,
    }
}

/// Each column of `list` as contracts see it.
pub open spec fn column_views(list: Seq<Column>) -> Seq<ColumnView> {
    Seq::new(list.len(), |i: int| list[i]@)
}

impl Clickhouse {
    /// The column list and the parameters of a row are those of the columns.
    #[verifier::type_invariant]
    pub closed spec fn wf(&self) -> bool {
        &&& self.field@ == column_list(column_views(self.columns@))
        &&& self.params@ == row_parameters(column_views(self.columns@))
    }

    /// The columns and the settings of the store.
    pub closed spec fn view(&self) -> Sink {
        Sink {
            columns: column_views(self.columns@),
            table: self.table@,
            database: self.database@,
            server: self.server@,
            username: self.username@,
            password: self.password@,
        }
    }

    /// The sink that `conf` describes under `sender`: the columns in
    /// `mapping` and `date-format`, the store in `clickhouse`. Fails where a
    /// setting is missing, with the message that names the first such.
    pub fn create(conf: &Section) -> (r: Result<Clickhouse, SyncError>)
        ensures
            match sender_missing(conf@) {
                Some(message) => r matches Err(error) && error@ == Fault::MissingParams(message),
                None => r matches Ok(sink) && sink@ == sender_settings(conf@),
            },
    {
        let sender = match conf.object("sender") {
            Some(section) => section,
            None => {
                return Err(
                    SyncError::MissingParams("Environment variable 'sender' could not be found."),
                );
            },
        };
        let mapping = match sender.object("mapping") {
            Some(section) => section,
            None => {
                return Err(
                    SyncError::MissingParams(
                        "Environment variable 'sender.mapping' could not be found.",
                    ),
                );
            },
        };
        let formats = match sender.object("date-format") {
            Some(section) => section,
            None => {
                return Err(
                    SyncError::MissingParams(
                        "Environment variable 'sender.date-format' could not be found.",
                    ),
                );
            },
        };
        let store = match sender.object("clickhouse") {
            Some(section) => section,
            None => {
                return Err(
                    SyncError::MissingParams(
                        "Environment variable 'sender.clickhouse' could not be found.",
                    ),
                );
            },
        };
        let database = match store.string("database") {
            Some(text) => text,
            None => {
                return Err(
                    SyncError::MissingParams(
                        "Environment variable 'sender.database' could not be found.",
                    ),
                );
            },
        };
        let table = match store.string("table") {
            Some(text) => text,
            None => {
                return Err(
                    SyncError::MissingParams(
                        "Environment variable 'sender.table' could not be found.",
                    ),
                );
            },
        };
        let server = match store.string("server") {
            Some(text) => text,
            None => {
                return Err(
                    SyncError::MissingParams(
                        "Environment variable 'sender.server' could not be found.",
                    ),
                );
            },
        };
        let username = match store.string("username") {
            Some(text) => text,
            None => {
                return Err(
                    SyncError::MissingParams(
                        "Environment variable 'sender.username' could not be found.",
                    ),
                );
            },
        };
        let password = match store.string("password") {
            Some(text) => text,
            None => {
                return Err(
                    SyncError::MissingParams(
                        "Environment variable 'sender.password' could not be found.",
                    ),
                );
            },
        };
        let mut columns: Vec<Column> = Vec::new();
        let mut titles: Vec<String> = Vec::new();
        let mut marks: Vec<String> = Vec::new();
        let mut i: usize = 0;
        while i < mapping.len()
            invariant
                i <= mapping@.len(),
                columns.len() == i,
                titles.len() == i,
                marks.len() == i,
                forall|j: int|
                    0 <= j < i ==> (#[trigger] columns@[j])@ == columns_of(mapping@, formats@)[j],
                forall|j: int| 0 <= j < i ==> (#[trigger] titles@[j])@ == mapping@[j].0,
                forall|j: int| 0 <= j < i ==> (#[trigger] marks@[j])@ == "?"@,
            decreases mapping@.len() - i,
        {
            let name = mapping.key(i).clone();
            let format = formats.string(name.as_str());
            titles.push(name.clone());
            marks.push(String::from_str("?"));
            columns.push(Column { name, attribute: mapping.value(i).as_string(), format });
            i = i + 1;
        }
        let field = join(&titles, ", ");
        let mut params = String::from_str("(");
        params.append(join(&marks, ", ").as_str());
        params.append(")");
        proof {
            let wanted = columns_of(mapping@, formats@);
            assert(column_views(columns@) =~= wanted);
            assert(texts(titles@) =~= names(wanted));
            assert(texts(marks@) =~= copies("?"@, wanted.len()));
        }
        Ok(Clickhouse { columns, table, field, params, database, server, username, password })
    }
}

/// One insert for a whole batch: the text of the statement, the values to
/// bind to its parameters row by row, and the highest offset among the
/// records written.
#[derive(Debug, Clone)]
pub struct Insert {
    pub sql: String,
    pub rows: Vec<Vec<String>>,
    pub offset: i64,
}

/// An [`Insert`] as contracts see it.
pub struct InsertView {
    pub sql: Seq<char>,
    pub rows: Seq<Seq<Seq<char>>>,
    pub offset: int,
}

/// The texts of each row of `rows`.
pub open spec fn tables(rows: Seq<Vec<String>>) -> Seq<Seq<Seq<char>>> {
    Seq::new(rows.len(), |i: int| texts(rows[i]@))
}

impl View for Insert {
    type V = InsertView;

    open spec fn view(&self) -> InsertView {
        InsertView { sql: self.sql@, rows: tables(self.rows@), offset: self.offset as int }
    }
}

/// The value bound for `column` from the attributes `object`: the text of the
/// attribute, or the empty text where the attribute is no text; for a date
/// column, that text in the canonical form. An attribute that is absent is a
/// failure that names it.
pub open spec fn cell(object: Map<Seq<char>, Option<Seq<char>>>, column: ColumnView) -> Result<
    Seq<char>,
    Fault,
> {
    if !object.contains_key(column.attribute) {
        Err(Fault::OptionParams("params "@ + column.attribute))
    } else {
        let raw = match object[column.attribute] {
            Some(text) => text,
            None => Seq::empty(),
        };
        match column.format {
            Some(format) => Ok(canonical_date(raw, format)),
            None => Ok(raw),
        }
    }
}

/// [`cell`] as a step over the columns.
pub open spec fn cells(object: Map<Seq<char>, Option<Seq<char>>>) -> spec_fn(ColumnView) -> Result<
    Seq<char>,
    Fault,
> {
    |column: ColumnView| cell(object, column)
}

/// The values bound for one record, in the order of the columns. A record
/// without attributes is a failure.
pub open spec fn row(columns: Seq<ColumnView>, record: Record) -> Result<Seq<Seq<char>>, Fault> {
    match record.map {
        None => Err(Fault::Option),
        Some(object) => each(cells(object), columns),
    }
}

/// [`row`] as a step over a batch.
pub open spec fn rows(columns: Seq<ColumnView>) -> spec_fn(Record) -> Result<
    Seq<Seq<char>>,
    Fault,
> {
    |record: Record| row(columns, record)
}

/// The highest offset in `batch`; the least there is for an empty batch.
pub open spec fn highest(batch: Seq<Record>) -> int
    decreases batch.len(),
{
    if batch.len() == 0 {
        i64::MIN as int
    } else if highest(batch.drop_last()) < batch.last().offset {
        batch.last().offset
    } else {
        highest(batch.drop_last())
    }
}

/// The insert for `batch`: none for an empty batch; else the statement with
/// one group of parameters for each record and the rows of all records in
/// the order of the batch, or the failure of the first record that has none.
pub open spec fn prepared(sink: Sink, batch: Seq<Record>) -> Result<Option<InsertView>, Fault> {
    if batch.len() == 0 {
        Ok(None)
    } else {
        match each(rows(sink.columns), batch) {
            Err(fault) => Err(fault),
            Ok(all) => Ok(
                Some(
                    InsertView {
                        sql: statement(sink.table, sink.columns, batch.len()),
                        rows: all,
                        offset: highest(batch),
                    },
                ),
            ),
        }
    }
}

/// The result of [`Clickhouse::prepare`] as contracts see it.
pub open spec fn prepared_of(r: Result<Option<Insert>, SyncError>) -> Result<
    Option<InsertView>,
    Fault,
> {
    match r {
        Ok(Some(insert)) => Ok(Some(insert@)),
        Ok(None) => Ok(None),
        Err(error) => Err(error@),
    }
}

impl Clickhouse {
    /// The columns, in the order of the statement.
    pub fn columns(&self) -> (r: &Vec<Column>)
        ensures
            column_views(r@) == self@.columns,
    {
        &self.columns
    }

    /// The table that is written to.
    pub fn table(&self) -> (r: &str)
        ensures
            r@ == self@.table,
    {
        self.table.as_str()
    }

    /// The database that holds the table.
    pub fn database(&self) -> (r: &str)
        ensures
            r@ == self@.database,
    {
        self.database.as_str()
    }

    /// The address of the store.
    pub fn server(&self) -> (r: &str)
        ensures
            r@ == self@.server,
    {
        self.server.as_str()
    }

    /// The user to sign in as.
    pub fn username(&self) -> (r: &str)
        ensures
            r@ == self@.username,
    {
        self.username.as_str()
    }

    /// The password to sign in with.
    pub fn password(&self) -> (r: &str)
        ensures
            r@ == self@.password,
    {
        self.password.as_str()
    }

    /// The values to bind for one record, in the order of the columns.
    fn row(&self, record: &LogMessage) -> (r: Result<Vec<String>, SyncError>)
        ensures
            match r {
                Ok(values) => row(self@.columns, record@) == Ok::<Seq<Seq<char>>, Fault>(
                    texts(values@),
                ),
                Err(error) => row(self@.columns, record@) == Err::<Seq<Seq<char>>, Fault>(error@),
            },
    {
        let object = match &record.map {
            Some(object) => object,
            None => {
                return Err(SyncError::Option);
            },
        };
        let ghost step = cells(fields(*object));
        let ghost columns = self@.columns;
        let mut values: Vec<String> = Vec::new();
        let mut j: usize = 0;
        assert(columns.take(0) =~= Seq::<ColumnView>::empty());
        assert(texts(values@) =~= Seq::<Seq<char>>::empty());
        while j < self.columns.len()
            invariant
                j <= self.columns.len(),
                columns == self@.columns,
                record.map == Some(*object),
                step == cells(fields(*object)),
                each(step, columns.take(j as int)) == Ok::<Seq<Seq<char>>, Fault>(texts(values@)),
            decreases self.columns.len() - j,
        {
            proof {
                lemma_each_next(step, columns, j as int);
            }
            let column = &self.columns[j];
            assert(column@ == columns[j as int]);
            let raw = match field(object, column.attribute.as_str()) {
                Some(Some(text)) => text,
                Some(None) => String::new(),
                None => {
                    proof {
                        lemma_each_fails(step, columns, j + 1);
                    }
                    let mut message = String::from_str("params ");
                    message.append(column.attribute.as_str());
                    return Err(SyncError::OptionParams(message));
                },
            };
            let value = match &column.format {
                Some(format) => canonical(raw.as_str(), format.as_str()),
                None => raw,
            };
            let ghost before = texts(values@);
            values.push(value);
            assert(texts(values@) =~= before.push(value@));
            j = j + 1;
        }
        assert(columns.take(self.columns.len() as int) =~= columns);
        Ok(values)
    }

    /// The insert that writes `batch`: nothing for an empty batch, else one
    /// statement for all its records. Fails, before anything could be sent,
    /// where a record has no attributes or lacks one that a column is mapped
    /// to.
    pub fn prepare(&self, batch: &Vec<LogMessage>) -> (r: Result<Option<Insert>, SyncError>)
        ensures
            prepared_of(r) == prepared(self@, records(batch@)),
    {
        if batch.len() == 0 {
            return Ok(None);
        }
        proof {
            use_type_invariant(self);
        }
        let ghost all = records(batch@);
        let ghost step = rows(self@.columns);
        let mut groups: Vec<String> = Vec::new();
        let mut bound: Vec<Vec<String>> = Vec::new();
        let mut offset: i64 = i64::MIN;
        let mut i: usize = 0;
        assert(all.take(0) =~= Seq::<Record>::empty());
        assert(tables(bound@) =~= Seq::<Seq<Seq<char>>>::empty());
        while i < batch.len()
            invariant
                i <= batch.len(),
                all == records(batch@),
                step == rows(self@.columns),
                groups.len() == i,
                forall|j: int| 0 <= j < i ==> (#[trigger] groups@[j])@ == self.params@,
                each(step, all.take(i as int)) == Ok::<Seq<Seq<Seq<char>>>, Fault>(tables(bound@)),
                offset == highest(all.take(i as int)),
            decreases batch.len() - i,
        {
            proof {
                lemma_each_next(step, all, i as int);
                assert(all.take(i + 1).drop_last() =~= all.take(i as int));
            }
            let values = match self.row(&batch[i]) {
                Ok(values) => values,
                Err(error) => {
                    proof {
                        lemma_each_fails(step, all, i + 1);
                    }
                    return Err(error);
                },
            };
            let ghost before = tables(bound@);
            bound.push(values);
            assert(tables(bound@) =~= before.push(texts(values@)));
            groups.push(self.params.clone());
            if offset < batch[i].offset {
                offset = batch[i].offset;
            }
            i = i + 1;
        }
        assert(all.take(batch.len() as int) =~= all);
        let mut sql = String::from_str("INSERT INTO ");
        sql.append(self.table.as_str());
        sql.append(" (");
        sql.append(self.field.as_str());
        sql.append(") VALUES\n");
        sql.append(join(&groups, ", ").as_str());
        assert(texts(groups@) =~= copies(self.params@, batch.len() as nat));
        Ok(Some(Insert { sql, rows: bound, offset }))
    }
}

/// The insert for a batch that is not empty has one group of parameters and
/// one row for each record, in the order of the batch, and each row has one
/// value for each column. Where there is no insert, some record has no row.
pub proof fn law_one_row_for_each_record(sink: Sink, batch: Seq<Record>)
    requires
        batch.len() > 0,
    ensures
        match prepared(sink, batch) {
            Ok(Some(insert)) => {
                &&& insert.sql == statement(sink.table, sink.columns, batch.len())
                &&& insert.rows.len() == batch.len()
                &&& forall|i: int|
                    0 <= i < batch.len() ==> row(sink.columns, #[trigger] batch[i]) == Ok::<
                        Seq<Seq<char>>,
                        Fault,
                    >(insert.rows[i]) && insert.rows[i].len() == sink.columns.len()
            },
            Ok(None) => false,
            Err(fault) => exists|i: int|
                0 <= i < batch.len() && row(sink.columns, #[trigger] batch[i]) == Err::<
                    Seq<Seq<char>>,
                    Fault,
                >(fault),
        },
{
    let step = rows(sink.columns);
    match each(step, batch) {
        Ok(all) => {
            lemma_each_ok(step, batch);
            assert forall|i: int| 0 <= i < batch.len() implies row(
                sink.columns,
                #[trigger] batch[i],
            ) == Ok::<Seq<Seq<char>>, Fault>(all[i]) && all[i].len() == sink.columns.len() by {
                assert(step(batch[i]) == Ok::<Seq<Seq<char>>, Fault>(all[i]));
                lemma_each_ok(cells(batch[i].map->0), sink.columns);
            }
        },
        Err(fault) => {
            let at = lemma_each_err(step, batch);
            assert(row(sink.columns, batch[at]) == Err::<Seq<Seq<char>>, Fault>(fault));
        },
    }
}

/// A date that cannot be read is no failure: the column is bound to the
/// placeholder.
pub proof fn law_unreadable_date_is_bound(
    object: Map<Seq<char>, Option<Seq<char>>>,
    column: ColumnView,
)
    requires
        object.contains_key(column.attribute),
        column.format is Some,
        reformatted(
            match object[column.attribute] {
                Some(text) => text,
                None => Seq::empty(),
            },
            column.format->0,
            CANONICAL@,
        ) is None,
    ensures
        cell(object, column) == Ok::<Seq<char>, Fault>(placeholder()),
{
}

/// Where every record has attributes and one of them lacks an attribute that
/// a column is mapped to, no insert is prepared: the batch fails, and the
/// failure names a missing attribute.
pub proof fn law_missing_attribute_fails(sink: Sink, batch: Seq<Record>, record: int, column: int)
    requires
        forall|i: int| 0 <= i < batch.len() ==> (#[trigger] batch[i]).map is Some,
        0 <= record < batch.len(),
        0 <= column < sink.columns.len(),
        !batch[record].map->0.contains_key(sink.columns[column].attribute),
    ensures
        prepared(sink, batch) matches Err(Fault::OptionParams(_)),
{
    let step = rows(sink.columns);
    let object = batch[record].map->0;
    if each(cells(object), sink.columns) is Ok {
        lemma_each_ok(cells(object), sink.columns);
        assert(cells(object)(sink.columns[column]) is Ok);
    }
    assert(step(batch[record]) is Err);
    if each(step, batch) is Ok {
        lemma_each_ok(step, batch);
    }
    let at = lemma_each_err(step, batch);
    assert(batch[at].map is Some);
    let failing = cells(batch[at].map->0);
    let inner = lemma_each_err(failing, sink.columns);
    assert(failing(sink.columns[inner]) is Err);
}

} // verus!
