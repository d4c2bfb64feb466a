//! The PostgreSQL wire front end: how result rows are framed, how column
//! types are announced and how a simple query is dispatched.
//!
//! Every value travels in its textual form, whatever format the client asked
//! for.

use bytes::BytesMut;
use vstd::prelude::*;
use vstd::string::*;
use vstd::utf8::*;
use crate::schema::{DataType, DataTypeView, Field, FieldView, TimeUnit};

verus! {

/// `bytes::BytesMut`, a growable byte buffer.
#[verifier::external_type_specification]
#[verifier::external_body]
pub struct ExBytesMut(bytes::BytesMut);

/// The bytes that a buffer holds, in order.
pub uninterp spec fn buffer_bytes(buf: bytes::BytesMut) -> Seq<u8>;

/// `BytesMut::new` returns a buffer that holds no bytes.
pub assume_specification[ bytes::BytesMut::new ]() -> (buf: bytes::BytesMut)
    ensures
        buffer_bytes(buf) == Seq::<u8>::empty(),
;

/// `BytesMut::extend_from_slice` appends the slice to what the buffer held
/// and changes nothing else. It grows the buffer as needed; the sum of the
/// two lengths cannot overflow, since both live in memory at once.
pub assume_specification[ bytes::BytesMut::extend_from_slice ](
    buf: &mut bytes::BytesMut,
    extend: &[u8],
)
    ensures
        buffer_bytes(*final(buf)) == buffer_bytes(*old(buf)) + extend@,
;

/// The PostgreSQL type announced for a column.
#[derive(Debug, Clone, Copy, PartialEq, Eq, Structural)]
pub enum Type {
    TEXT,
    TIMESTAMP,
    INT8,
    INT4,
    UNKNOWN,
}

/// The format in which a column's values travel.
#[derive(Debug, Clone, Copy, PartialEq, Eq, Structural)]
pub enum FieldFormat {
    Text,
    Binary,
}

/// What a row description says of one column.
#[derive(Debug)]
pub struct FieldInfo {
    pub name: String,
    pub datatype: Type,
    pub format: FieldFormat,
}

/// The mathematical value of a [`FieldInfo`].
pub struct FieldInfoView {
    pub name: Seq<char>,
    pub datatype: Type,
    pub format: FieldFormat,
}

impl View for FieldInfo {
    type V = FieldInfoView;

    open spec fn view(&self) -> FieldInfoView {
        FieldInfoView { name: self.name@, datatype: self.datatype, format: self.format }
    }
}

impl DeepView for FieldInfo {
    type V = FieldInfoView;

    open spec fn deep_view(&self) -> FieldInfoView {
        self@
    }
}

/// The wire type of a column type: `Utf8` is `TEXT`, a microsecond instant
/// is `TIMESTAMP` whatever its zone, `Int64` is `INT8`, `Int32` is `INT4`,
/// and everything else is `TEXT`.
pub open spec fn pg_type_of(data_type: DataTypeView) -> Type {
    match data_type {
        DataTypeView::Utf8 => Type::TEXT,
        DataTypeView::Timestamp(TimeUnit::Microsecond, _) => Type::TIMESTAMP,
        DataTypeView::Int64 => Type::INT8,
        DataTypeView::Int32 => Type::INT4,
        _ => Type::TEXT,
    }
}

/// The row description entry of a column: its name, its wire type, and the
/// text format.
pub open spec fn field_info_of(field: FieldView) -> FieldInfoView {
    FieldInfoView {
        name: field.name,
        datatype: pg_type_of(field.data_type),
        format: FieldFormat::Text,
    }
}

/// The wire type under which a column type is announced.
pub fn into_pg_type(data_type: &DataType) -> (pg_type: Type)
    ensures
        pg_type == pg_type_of(data_type@),
{
    match data_type {
        DataType::Utf8 => Type::TEXT,
        DataType::Timestamp(TimeUnit::Microsecond, _) => Type::TIMESTAMP,
        DataType::Int64 => Type::INT8,
        DataType::Int32 => Type::INT4,
        _ => Type::TEXT,
    }
}

/// The row description of a schema: one entry per column, in order, each in
/// text format.
pub fn pgwire_schema_from_arrow(schema: &Vec<Field>) -> (fields: Vec<FieldInfo>)
    ensures
        fields.deep_view() == schema.deep_view().map_values(|f: FieldView| field_info_of(f)),
{
    let mut fields: Vec<FieldInfo> = Vec::new();
    let mut i: usize = 0;
    while i < schema.len()
        invariant
            i <= schema.len(),
            fields.len() == i,
            forall|j: int| 0 <= j < i ==> (#[trigger] fields[j])@ == field_info_of(schema[j]@),
        decreases schema.len() - i,
    {
        let field = &schema[i];
        fields.push(
            FieldInfo {
                name: field.name.clone(),
                datatype: into_pg_type(&field.data_type),
                format: FieldFormat::Text,
            },
        );
        i += 1;
    }
    assert(fields.deep_view() =~= schema.deep_view().map_values(|f: FieldView| field_info_of(f)));
    fields
}

/// The wire type of a statement parameter: that of its type where the
/// planner inferred one, `UNKNOWN` where it did not.
pub open spec fn parameter_type_of(param: Option<DataTypeView>) -> Type {
    match param {
        Some(data_type) => pg_type_of(data_type),
        None => Type::UNKNOWN,
    }
}

/// The wire types of a statement's parameters, in order.
pub fn describe_parameters(params: &Vec<Option<DataType>>) -> (types: Vec<Type>)
    ensures
        types@ == params.deep_view().map_values(|p: Option<DataTypeView>| parameter_type_of(p)),
{
    let mut types: Vec<Type> = Vec::new();
    let mut i: usize = 0;
    while i < params.len()
        invariant
            i <= params.len(),
            types.len() == i,
            forall|j: int|
                0 <= j < i ==> #[trigger] types[j] == parameter_type_of(params.deep_view()[j]),
        decreases params.len() - i,
    {
        let pg_type = match &params[i] {
            Some(data_type) => into_pg_type(data_type),
            None => Type::UNKNOWN,
        };
        assert(params.deep_view()[i as int] == params[i as int].deep_view());
        types.push(pg_type);
        i += 1;
    }
    assert(types@ =~= params.deep_view().map_values(
        |p: Option<DataTypeView>| parameter_type_of(p),
    ));
    types
}

/// The low sixteen bits of `n`, most significant byte first.
pub open spec fn be16(n: int) -> Seq<u8> {
    seq![((n / 0x100) % 0x100) as u8, (n % 0x100) as u8]
}

/// The low thirty-two bits of `n`, most significant byte first.
pub open spec fn be32(n: int) -> Seq<u8> {
    seq![
        ((n / 0x100_0000) % 0x100) as u8,
        ((n / 0x1_0000) % 0x100) as u8,
        ((n / 0x100) % 0x100) as u8,
        (n % 0x100) as u8,
    ]
}

/// The length word that stands for a null: minus one.
pub open spec fn null_marker() -> Seq<u8> {
    seq![0xffu8, 0xffu8, 0xffu8, 0xffu8]
}

/// One value of a data row: a null is the marker alone; a text is the
/// length of its UTF-8 encoding as a 32-bit word, then the encoding.
pub open spec fn encode_value(value: Option<Seq<char>>) -> Seq<u8> {
    match value {
        Some(text) => be32(encode_utf8(text).len() as int) + encode_utf8(text),
        None => null_marker(),
    }
}

/// The values of a data row, one after another.
pub open spec fn encode_values(values: Seq<Option<Seq<char>>>) -> Seq<u8>
    decreases values.len(),
{
    if values.len() == 0 {
        Seq::empty()
    } else {
        encode_values(values.drop_last()) + encode_value(values.last())
    }
}

/// A data row: the number of values as a 16-bit word, then the values.
pub open spec fn encode_row(values: Seq<Option<Seq<char>>>) -> Seq<u8> {
    be16(values.len() as int) + encode_values(values)
}

/// A null's marker is the 32-bit word for minus one.
pub proof fn lemma_null_marker_is_minus_one()
    ensures
        null_marker() == be32(-1),
{
    assert(null_marker() =~= be32(-1));
}

/// The number that two bytes are the big-endian word of.
pub open spec fn word16(bytes: Seq<u8>) -> int {
    bytes[0] as int * 0x100 + bytes[1] as int
}

/// The number that four bytes are the big-endian word of.
pub open spec fn word32(bytes: Seq<u8>) -> int {
    bytes[0] as int * 0x100_0000 + bytes[1] as int * 0x1_0000 + bytes[2] as int * 0x100
        + bytes[3] as int
}

/// What a client reads from the bytes of `count` values: each value as a
/// null or as the bytes of its text. Nothing where the bytes are not the
/// framing of exactly `count` values.
pub open spec fn read_values(bytes: Seq<u8>, count: nat) -> Option<Seq<Option<Seq<u8>>>>
    decreases count,
{
    if count == 0 {
        if bytes.len() == 0 {
            Some(Seq::empty())
        } else {
            None
        }
    } else if bytes.len() < 4 {
        None
    } else if bytes.take(4) == null_marker() {
        match read_values(bytes.skip(4), (count - 1) as nat) {
            Some(rest) => Some(seq![None::<Seq<u8>>] + rest),
            None => None,
        }
    } else {
        let length = word32(bytes.take(4));
        if length >= 0x8000_0000 || bytes.len() < 4 + length {
            None
        } else {
            match read_values(bytes.skip(4 + length), (count - 1) as nat) {
                Some(rest) => Some(seq![Some(bytes.subrange(4, 4 + length))] + rest),
                None => None,
            }
        }
    }
}

/// What a client reads from the bytes of a data row.
pub open spec fn read_row(bytes: Seq<u8>) -> Option<Seq<Option<Seq<u8>>>> {
    if bytes.len() < 2 {
        None
    } else {
        read_values(bytes.skip(2), word16(bytes.take(2)) as nat)
    }
}

/// The values of a row as the client is to read them: the UTF-8 encoding
/// of every text.
pub open spec fn as_sent(values: Seq<Option<Seq<char>>>) -> Seq<Option<Seq<u8>>> {
    values.map_values(
        |value: Option<Seq<char>>|
            match value {
                Some(text) => Some(encode_utf8(text)),
                None => None,
            },
    )
}

/// Whether every text of a row is short enough for its length word.
pub open spec fn lengths_fit(values: Seq<Option<Seq<char>>>) -> bool {
    forall|i: int|
        0 <= i < values.len() ==> (#[trigger] values[i] matches Some(text) ==> encode_utf8(text).len()
            < 0x8000_0000)
}

/// A big-endian word of sixteen bits reads back as the number it was made
/// from.
pub proof fn lemma_word16_of_be16(n: int)
    requires
        0 <= n < 0x1_0000,
    ensures
        be16(n).len() == 2,
        word16(be16(n)) == n,
{
}

/// A big-endian word of thirty-two bits reads back as the number it was
/// made from.
pub proof fn lemma_word32_of_be32(n: int)
    requires
        0 <= n < 0x1_0000_0000,
    ensures
        be32(n).len() == 4,
        word32(be32(n)) == n,
{
}

/// The values of a row are framed one after the other, the first first.
pub proof fn lemma_encode_values_front(first: Option<Seq<char>>, rest: Seq<Option<Seq<char>>>)
    ensures
        encode_values(seq![first] + rest) == encode_value(first) + encode_values(rest),
    decreases rest.len(),
{
    let all = seq![first] + rest;
    if rest.len() == 0 {
        assert(all.drop_last() =~= Seq::<Option<Seq<char>>>::empty());
        assert(all.last() == first);
        assert(encode_values(all.drop_last()) =~= Seq::<u8>::empty());
        assert(encode_values(rest) =~= Seq::<u8>::empty());
        assert(encode_values(all) =~= encode_value(first) + encode_values(rest));
    } else {
        assert(all.drop_last() =~= seq![first] + rest.drop_last());
        assert(all.last() == rest.last());
        lemma_encode_values_front(first, rest.drop_last());
        assert(encode_values(all) =~= encode_value(first) + encode_values(rest));
    }
}

/// What was framed is what is read: the values of a row, framed and read
/// again, are the values, each text in UTF-8.
pub proof fn lemma_read_values_of_encoded(values: Seq<Option<Seq<char>>>)
    requires
        lengths_fit(values),
    ensures
        read_values(encode_values(values), values.len()) == Some(as_sent(values)),
    decreases values.len(),
{
    if values.len() == 0 {
        assert(as_sent(values) =~= Seq::<Option<Seq<u8>>>::empty());
    } else {
        let first = values[0];
        let rest = values.skip(1);
        assert(values =~= seq![first] + rest);
        lemma_encode_values_front(first, rest);
        assert forall|i: int| 0 <= i < rest.len() implies (#[trigger] rest[i] matches Some(text)
            ==> encode_utf8(text).len() < 0x8000_0000) by {
            assert(rest[i] == values[i + 1]);
        }
        lemma_read_values_of_encoded(rest);
        let bytes = encode_values(values);
        let tail = encode_values(rest);
        assert(as_sent(values) =~= seq![as_sent(values)[0]] + as_sent(rest));
        match first {
            Some(text) => {
                let payload = encode_utf8(text);
                lemma_word32_of_be32(payload.len() as int);
                assert(bytes =~= be32(payload.len() as int) + payload + tail);
                assert(bytes.take(4) =~= be32(payload.len() as int));
                assert(be32(payload.len() as int)[0] < 0x80);
                assert(bytes.take(4) != null_marker()) by {
                    assert(null_marker()[0] == 0xff);
                }
                assert(bytes.skip(4 + payload.len() as int) =~= tail);
                assert(bytes.subrange(4, 4 + payload.len() as int) =~= payload);
            },
            None => {
                assert(bytes =~= null_marker() + tail);
                assert(bytes.take(4) =~= null_marker());
                assert(bytes.skip(4) =~= tail);
            },
        }
    }
}

/// A data row is read back as it was written: for a row of fewer than
/// 65536 values, each text shorter than two gibibytes, the client reads
/// the number of values and then every value, and nothing is left over.
pub proof fn lemma_read_row_of_encoded(values: Seq<Option<Seq<char>>>)
    requires
        values.len() < 0x1_0000,
        lengths_fit(values),
    ensures
        read_row(encode_row(values)) == Some(as_sent(values)),
{
    let bytes = encode_row(values);
    lemma_word16_of_be16(values.len() as int);
    lemma_read_values_of_encoded(values);
    assert(bytes.take(2) =~= be16(values.len() as int));
    assert(bytes.skip(2) =~= encode_values(values));
}

fn be16_of(n: usize) -> (word: Vec<u8>)
    ensures
        word@ == be16(n as int),
{
    let hi: u8 = ((n / 0x100) % 0x100) as u8;
    let lo: u8 = (n % 0x100) as u8;
    let mut word: Vec<u8> = Vec::new();
    word.push(hi);
    word.push(lo);
    assert(word@ =~= be16(n as int));
    word
}

fn be32_of(n: usize) -> (word: Vec<u8>)
    ensures
        word@ == be32(n as int),
{
    let b0: u8 = ((n / 0x100_0000) % 0x100) as u8;
    let b1: u8 = ((n / 0x1_0000) % 0x100) as u8;
    let b2: u8 = ((n / 0x100) % 0x100) as u8;
    let b3: u8 = (n % 0x100) as u8;
    let mut word: Vec<u8> = Vec::new();
    word.push(b0);
    word.push(b1);
    word.push(b2);
    word.push(b3);
    assert(word@ =~= be32(n as int));
    word
}

/// Frames the values of one row in the PostgreSQL data row format.
///
/// The buffer holds the number of values as a big-endian 16-bit word, then
/// each value: minus one for a null, else the byte length of the text as a
/// big-endian 32-bit word followed by the text in UTF-8. Counts and lengths
/// beyond the width of their word keep their low bits.
pub fn serialize_row(row_values: Vec<Option<String>>) -> (buf: BytesMut)
    ensures
        buffer_bytes(buf) == encode_row(row_values.deep_view()),
{
    let mut buf = BytesMut::new();
    let count = be16_of(row_values.len());
    buf.extend_from_slice(count.as_slice());
    let ghost values = row_values.deep_view();
    let mut i: usize = 0;
    while i < row_values.len()
        invariant
            i <= row_values.len(),
            values == row_values.deep_view(),
            buffer_bytes(buf) == be16(values.len() as int) + encode_values(values.take(i as int)),
        decreases row_values.len() - i,
    {
        proof {
            assert(values.take(i as int + 1).drop_last() =~= values.take(i as int));
            assert(values.take(i as int + 1).last() == values[i as int]);
            assert(values[i as int] == row_values[i as int].deep_view());
        }
        match &row_values[i] {
            Some(text) => {
                let bytes = text.as_str().as_bytes();
                let length = be32_of(bytes.len());
                buf.extend_from_slice(length.as_slice());
                buf.extend_from_slice(bytes);
            },
            None => {
                let marker: Vec<u8> = vec![0xffu8, 0xffu8, 0xffu8, 0xffu8];
                assert(marker@ =~= null_marker());
                buf.extend_from_slice(marker.as_slice());
            },
        }
        assert(buffer_bytes(buf) =~= be16(values.len() as int) + encode_values(
            values.take(i as int + 1),
        ));
        i += 1;
    }
    assert(values.take(row_values.len() as int) =~= values);
    buf
}

/// One framed row: the bytes, and the number of values that they hold.
#[derive(Debug)]
pub struct DataRow {
    pub data: BytesMut,
    pub field_count: i16,
}

/// The mathematical value of a [`DataRow`].
pub struct DataRowView {
    pub data: Seq<u8>,
    pub field_count: i16,
}

impl View for DataRow {
    type V = DataRowView;

    open spec fn view(&self) -> DataRowView {
        DataRowView { data: buffer_bytes(self.data), field_count: self.field_count }
    }
}

impl DeepView for DataRow {
    type V = DataRowView;

    open spec fn deep_view(&self) -> DataRowView {
        self@
    }
}

/// The answer to a query: the row description and the framed rows.
#[derive(Debug)]
pub struct QueryResponse {
    pub fields: Vec<FieldInfo>,
    pub rows: Vec<DataRow>,
}

/// The row description of the pseudo-result that reports a finished write:
/// one text column named `CommandComplete`.
pub open spec fn command_complete_fields() -> Seq<FieldInfoView> {
    seq![
        FieldInfoView {
            name: "CommandComplete"@,
            datatype: Type::TEXT,
            format: FieldFormat::Text,
        },
    ]
}

/// Reports a finished write to the client as a result of one row and one
/// text column that holds the message.
pub fn command_complete_response(msg: &str) -> (response: QueryResponse)
    ensures
        response.fields.deep_view() == command_complete_fields(),
        response.rows.deep_view() == seq![
            DataRowView { data: encode_row(seq![Some(msg@)]), field_count: 1 },
        ],
{
    let mut values: Vec<Option<String>> = Vec::new();
    values.push(Some(String::from_str(msg)));
    assert(values.deep_view() =~= seq![Some(msg@)]);
    let data = serialize_row(values);
    let mut rows: Vec<DataRow> = Vec::new();
    rows.push(DataRow { data, field_count: 1 });
    let mut fields: Vec<FieldInfo> = Vec::new();
    fields.push(
        FieldInfo {
            name: String::from_str("CommandComplete"),
            datatype: Type::TEXT,
            format: FieldFormat::Text,
        },
    );
    assert(fields.deep_view() =~= command_complete_fields());
    assert(rows.deep_view() =~= seq![
        DataRowView { data: encode_row(seq![Some(msg@)]), field_count: 1 },
    ]);
    QueryResponse { fields, rows }
}

/// A slice of a result, column by column, every value in its textual form
/// and a null as `None`. Every column has `num_rows` values.
#[derive(Debug)]
pub struct RecordBatch {
    columns: Vec<Vec<Option<String>>>,
    num_rows: usize,
}

/// The mathematical value of a [`RecordBatch`].
pub struct RecordBatchView {
    pub columns: Seq<Seq<Option<Seq<char>>>>,
    pub num_rows: nat,
}

impl View for RecordBatch {
    type V = RecordBatchView;

    closed spec fn view(&self) -> RecordBatchView {
        RecordBatchView { columns: self.columns.deep_view(), num_rows: self.num_rows as nat }
    }
}

impl DeepView for RecordBatch {
    type V = RecordBatchView;

    open spec fn deep_view(&self) -> RecordBatchView {
        self@
    }
}

impl RecordBatchView {
    /// Every column has as many values as the batch has rows.
    pub open spec fn rectangular(self) -> bool {
        forall|c: int| 0 <= c < self.columns.len() ==> (#[trigger] self.columns[c]).len() == self.num_rows
    }

    /// The values of row `r`, one per column.
    pub open spec fn row(self, r: int) -> Seq<Option<Seq<char>>> {
        Seq::new(self.columns.len(), |c: int| self.columns[c][r])
    }

    /// The framed rows of the batch, in order. The number of values of a
    /// row is announced as a 16-bit number.
    pub open spec fn encoded(self) -> Seq<DataRowView> {
        Seq::new(
            self.num_rows,
            |r: int|
                DataRowView {
                    data: encode_row(self.row(r)),
                    field_count: self.columns.len() as i16,
                },
        )
    }
}

impl RecordBatch {
    #[verifier::type_invariant]
    spec fn well_formed(self) -> bool {
        forall|c: int| 0 <= c < self.columns.len() ==> (#[trigger] self.columns[c]).len() == self.num_rows
    }

    /// A batch of `num_rows` rows with the given columns, or nothing where a
    /// column does not have `num_rows` values.
    pub fn try_new(num_rows: usize, columns: Vec<Vec<Option<String>>>) -> (batch: Option<
        RecordBatch,
    >)
        ensures
            batch is Some <==> (RecordBatchView {
                columns: columns.deep_view(),
                num_rows: num_rows as nat,
            }).rectangular(),
            batch matches Some(b) ==> b@ == (RecordBatchView {
                columns: columns.deep_view(),
                num_rows: num_rows as nat,
            }),
    {
        let mut c: usize = 0;
        while c < columns.len()
            invariant
                c <= columns.len(),
                forall|k: int| 0 <= k < c ==> (#[trigger] columns[k]).len() == num_rows,
            decreases columns.len() - c,
        {
            if columns[c].len() != num_rows {
                proof {
                    let view = RecordBatchView {
                        columns: columns.deep_view(),
                        num_rows: num_rows as nat,
                    };
                    assert(view.columns[c as int].len() == columns[c as int].len());
                    assert(!view.rectangular());
                }
                return None;
            }
            c += 1;
        }
        proof {
            assert forall|k: int| 0 <= k < columns.len() implies (#[trigger] columns.deep_view()[k]).len()
                == num_rows by {
                assert(columns.deep_view()[k].len() == columns[k].len());
            }
        }
        Some(RecordBatch { columns, num_rows })
    }

    /// The number of rows.
    pub fn num_rows(&self) -> (n: usize)
        ensures
            n == self@.num_rows,
    {
        self.num_rows
    }

    /// The number of columns.
    pub fn num_columns(&self) -> (n: usize)
        ensures
            n == self@.columns.len(),
    {
        self.columns.len()
    }

    /// The framed rows of the batch.
    pub fn encode(&self) -> (rows: Vec<DataRow>)
        ensures
            rows.deep_view() == self@.encoded(),
    {
        proof {
            use_type_invariant(self);
        }
        let mut rows: Vec<DataRow> = Vec::new();
        let mut r: usize = 0;
        while r < self.num_rows
            invariant
                r <= self.num_rows,
                rows.len() == r,
                forall|c: int|
                    0 <= c < self.columns.len() ==> (#[trigger] self.columns[c]).len()
                        == self.num_rows,
                forall|k: int| 0 <= k < r ==> (#[trigger] rows[k])@ == self@.encoded()[k],
            decreases self.num_rows - r,
        {
            let mut values: Vec<Option<String>> = Vec::new();
            let mut c: usize = 0;
            while c < self.columns.len()
                invariant
                    r < self.num_rows,
                    c <= self.columns.len(),
                    values.len() == c,
                    forall|k: int|
                        0 <= k < self.columns.len() ==> (#[trigger] self.columns[k]).len()
                            == self.num_rows,
                    forall|k: int|
                        0 <= k < c ==> (#[trigger] values[k]).deep_view() == self@.row(r as int)[k],
                decreases self.columns.len() - c,
            {
                assert(self.columns[c as int].len() == self.num_rows);
                let value = match &self.columns[c][r] {
                    Some(text) => Some(text.clone()),
                    None => None,
                };
                proof {
                    assert(self@.columns[c as int] == self.columns[c as int].deep_view());
                    assert(self.columns[c as int].deep_view()[r as int]
                        == self.columns[c as int][r as int].deep_view());
                }
                values.push(value);
                c += 1;
            }
            assert(values.deep_view() =~= self@.row(r as int));
            let data = serialize_row(values);
            let field_count = #[verifier::truncate]
            (self.columns.len() as i16);
            rows.push(DataRow { data, field_count });
            r += 1;
        }
        assert(rows.deep_view() =~= self@.encoded());
        rows
    }
}

/// The framed rows of several batches, batch after batch.
pub open spec fn encode_batches(batches: Seq<RecordBatchView>) -> Seq<DataRowView>
    decreases batches.len(),
{
    if batches.len() == 0 {
        Seq::empty()
    } else {
        encode_batches(batches.drop_last()) + batches.last().encoded()
    }
}

/// How many rows several batches hold together.
pub open spec fn total_rows(batches: Seq<RecordBatchView>) -> nat
    decreases batches.len(),
{
    if batches.len() == 0 {
        0
    } else {
        total_rows(batches.drop_last()) + batches.last().num_rows
    }
}

/// Every row of the batches is framed, and none is added.
pub proof fn lemma_encode_batches_len(batches: Seq<RecordBatchView>)
    ensures
        encode_batches(batches).len() == total_rows(batches),
    decreases batches.len(),
{
    if batches.len() > 0 {
        lemma_encode_batches_len(batches.drop_last());
    }
}

/// Encodes a collected result for the client: the row description of the
/// schema, and every row of every batch, in order, in text format.
pub fn encode_dataframe(schema: &Vec<Field>, batches: &Vec<RecordBatch>) -> (response:
    QueryResponse)
    ensures
        response.fields.deep_view() == schema.deep_view().map_values(
            |f: FieldView| field_info_of(f),
        ),
        response.rows.deep_view() == encode_batches(batches.deep_view()),
{
    let fields = pgwire_schema_from_arrow(schema);
    let mut all_rows: Vec<DataRow> = Vec::new();
    let mut b: usize = 0;
    assert(batches.deep_view().take(0) =~= Seq::<RecordBatchView>::empty());
    while b < batches.len()
        invariant
            b <= batches.len(),
            all_rows.deep_view() == encode_batches(batches.deep_view().take(b as int)),
        decreases batches.len() - b,
    {
        let mut rows = batches[b].encode();
        proof {
            let done = batches.deep_view().take(b as int + 1);
            assert(done.drop_last() =~= batches.deep_view().take(b as int));
            assert(done.last() == batches[b as int]@);
        }
        let ghost before = all_rows.deep_view();
        let ghost added = rows.deep_view();
        all_rows.append(&mut rows);
        assert(all_rows.deep_view() =~= before + added);
        b += 1;
    }
    assert(batches.deep_view().take(batches.len() as int) =~= batches.deep_view());
    QueryResponse { fields, rows: all_rows }
}

} // verus!
