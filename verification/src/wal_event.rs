//! Row changes as they are handed to handlers.
use crate::text::same_text;
use vstd::prelude::*;

verus! {

/// What happened to a row.
#[derive(Debug, Clone, Copy, PartialEq, Eq, Structural)]
pub enum WalOperation {
    Insert,
    Update,
    Delete,
}

/// The start or the end of a transaction.
#[derive(Debug, Clone)]
pub enum TransactionEvent {
    Begin { final_lsn: u64, commit_time: i64, xid: u32 },
    Commit { commit_lsn: u64, end_lsn: u64, commit_time: i64 },
}

/// One row change: the table, the operation, the row before and after it as tuple bytes (see
/// [`crate::TupleParser`]), and the columns of the table at that time.
#[derive(Debug)]
pub struct RawWalEvent {
    pub table_name: String,
    pub schema_name: String,
    pub operation: WalOperation,
    pub old_tuple: Option<Vec<u8>>,
    pub new_tuple: Option<Vec<u8>>,
    pub columns: Vec<ColumnInfo>,
}

/// Name and type of a column.
#[derive(Debug)]
pub struct ColumnInfo {
    pub name: String,
    pub type_id: u32,
    pub type_modifier: i32,
}

/// The value of a column.
#[derive(Debug)]
pub enum TupleValue {
    Null,
    Text(String),
    Binary(Vec<u8>),
}

/// What a [`ColumnInfo`] stands for.
#[verifier::ext_equal]
pub struct ColumnModel {
    pub name: Seq<char>,
    pub type_id: u32,
    pub type_modifier: i32,
}

/// What a [`TupleValue`] stands for.
#[verifier::ext_equal]
pub enum ValueModel {
    Null,
    Text(Seq<char>),
    Binary(Seq<u8>),
}

/// What a [`RawWalEvent`] stands for.
#[verifier::ext_equal]
pub struct EventModel {
    pub table_name: Seq<char>,
    pub schema_name: Seq<char>,
    pub operation: WalOperation,
    pub old_tuple: Option<Seq<u8>>,
    pub new_tuple: Option<Seq<u8>>,
    pub columns: Seq<ColumnModel>,
}

impl View for ColumnInfo {
    type V = ColumnModel;

    open spec fn view(&self) -> ColumnModel {
        ColumnModel {
            name: self.name@,
            type_id: self.type_id,
            type_modifier: self.type_modifier,
        }
    }
}

impl View for TupleValue {
    type V = ValueModel;

    open spec fn view(&self) -> ValueModel {
        match self {
            TupleValue::Null => ValueModel::Null,
            TupleValue::Text(text) => ValueModel::Text(text@),
            TupleValue::Binary(bytes) => ValueModel::Binary(bytes@),
        }
    }
}

/// The columns that `columns` describe.
pub open spec fn column_models(columns: Seq<ColumnInfo>) -> Seq<ColumnModel> {
    columns.map_values(|c: ColumnInfo| c@)
}

/// The bytes of an optional tuple.
pub open spec fn tuple_bytes(tuple: Option<Vec<u8>>) -> Option<Seq<u8>> {
    match tuple {
        Some(bytes) => Some(bytes@),
        None => None,
    }
}

impl View for RawWalEvent {
    type V = EventModel;

    open spec fn view(&self) -> EventModel {
        EventModel {
            table_name: self.table_name@,
            schema_name: self.schema_name@,
            operation: self.operation,
            old_tuple: tuple_bytes(self.old_tuple),
            new_tuple: tuple_bytes(self.new_tuple),
            columns: column_models(self.columns@),
        }
    }
}

impl Clone for ColumnInfo {
    fn clone(&self) -> (copy: Self)
        ensures
            copy@ == self@,
    {
        ColumnInfo {
            name: self.name.clone(),
            type_id: self.type_id,
            type_modifier: self.type_modifier,
        }
    }
}

impl Clone for TupleValue {
    fn clone(&self) -> (copy: Self)
        ensures
            copy@ == self@,
    {
        match self {
            TupleValue::Null => TupleValue::Null,
            TupleValue::Text(text) => TupleValue::Text(text.clone()),
            TupleValue::Binary(bytes) => TupleValue::Binary(copy_bytes(bytes.as_slice())),
        }
    }
}

impl Clone for RawWalEvent {
    fn clone(&self) -> (copy: Self)
        ensures
            copy@ == self@,
    {
        let old_tuple = match &self.old_tuple {
            Some(bytes) => Some(copy_bytes(bytes.as_slice())),
            None => None,
        };
        let new_tuple = match &self.new_tuple {
            Some(bytes) => Some(copy_bytes(bytes.as_slice())),
            None => None,
        };
        RawWalEvent {
            table_name: self.table_name.clone(),
            schema_name: self.schema_name.clone(),
            operation: self.operation,
            old_tuple,
            new_tuple,
            columns: copy_columns(&self.columns),
        }
    }
}

/// A vector of the same bytes.
pub(crate) fn copy_bytes(bytes: &[u8]) -> (copy: Vec<u8>)
    ensures
        copy@ == bytes@,
{
    let mut copy: Vec<u8> = Vec::with_capacity(bytes.len());
    let mut i: usize = 0;
    while i < bytes.len()
        invariant
            i <= bytes@.len(),
            copy@ == bytes@.take(i as int),
        decreases bytes@.len() - i,
    {
        copy.push(bytes[i]);
        assert(bytes@.take(i + 1) =~= bytes@.take(i as int).push(bytes@[i as int]));
        i += 1;
    }
    assert(bytes@.take(bytes@.len() as int) =~= bytes@);
    copy
}

/// The same columns once more.
pub(crate) fn copy_columns(columns: &Vec<ColumnInfo>) -> (copy: Vec<ColumnInfo>)
    ensures
        column_models(copy@) == column_models(columns@),
{
    let mut copy: Vec<ColumnInfo> = Vec::with_capacity(columns.len());
    let mut i: usize = 0;
    while i < columns.len()
        invariant
            i <= columns@.len(),
            copy@.len() == i,
            forall|j: int| 0 <= j < i ==> (#[trigger] copy@[j])@ == columns@[j]@,
        decreases columns@.len() - i,
    {
        copy.push(columns[i].clone());
        i += 1;
    }
    assert(column_models(copy@) =~= column_models(columns@));
    copy
}

impl RawWalEvent {
    /// Whether the change was made to `table`.
    pub fn is_table(&self, table: &str) -> (answer: bool)
        ensures
            answer == (self@.table_name == table@),
    {
        same_text(self.table_name.as_str(), table)
    }

    /// Whether a row was inserted.
    pub fn is_insert(&self) -> (answer: bool)
        ensures
            answer == (self@.operation == WalOperation::Insert),
    {
        matches!(self.operation, WalOperation::Insert)
    }

    /// Whether a row was updated.
    pub fn is_update(&self) -> (answer: bool)
        ensures
            answer == (self@.operation == WalOperation::Update),
    {
        matches!(self.operation, WalOperation::Update)
    }

    /// Whether a row was deleted.
    pub fn is_delete(&self) -> (answer: bool)
        ensures
            answer == (self@.operation == WalOperation::Delete),
    {
        matches!(self.operation, WalOperation::Delete)
    }
}

/// Receives the row changes of one table.
///
/// Nothing is assumed of an implementation. `handle` hands back an outcome that the caller of
/// the subscriber waits for, such as a `Result` or a future of one; how it ends is reported with
/// [`crate::wal_subscriber::processing_outcome`].
pub trait WalEventHandler: Send + Sync {
    type Outcome;

    /// Takes one row change of the handler's table.
    fn handle(&self, event: RawWalEvent) -> Self::Outcome;

    /// The table whose row changes the handler wants.
    fn table_name(&self) -> &str;
}

} // verus!
