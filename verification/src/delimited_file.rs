//! Files of records whose values are set apart by a delimiter, such as
//! comma-separated and tab-separated files.
//!
//! A file holds a list of records. With a header, its first line names
//! the fields and every record has those names; without one, the fields
//! have no names. The bytes of each line are those that the `csv` crate
//! writes, and it is the `csv` crate that cuts the bytes of a file into
//! lines and values.

use crate::filetypes::{file_path_of, make_file_path, MartianFileType};
use crate::text::{ends_with, same_text, str_ends_with, words};
use std::marker::PhantomData;
use vstd::prelude::*;
use vstd::string::*;

verus! {

/// Trusted: the error type of the `csv` crate, of which nothing is known
/// here but that it is one.
#[verifier::external_type_specification]
#[verifier::external_body]
pub struct ExCsvError(csv::Error);

/// The bytes that the `csv` crate writes for one record of the given
/// values under the given delimiter, or nothing where it reports an error.
pub uninterp spec fn csv_record(delimiter: u8, fields: Seq<Seq<char>>) -> Option<Seq<u8>>;

/// The records, each a list of values, that the `csv` crate reads from
/// the given bytes under the given delimiter, or nothing where it reports
/// an error.
pub uninterp spec fn csv_records(delimiter: u8, bytes: Seq<u8>) -> Option<Seq<Seq<Seq<char>>>>;

/// The values of each of `records`.
pub open spec fn texts(records: Seq<Vec<String>>) -> Seq<Seq<Seq<char>>> {
    records.map_values(|r: Vec<String>| words(r@))
}

/// Trusted: a new `csv::Writer` over an empty buffer, with the given
/// delimiter and otherwise as `csv::WriterBuilder::new` sets it up, is
/// handed one record through `csv::Writer::write_record` and then asked
/// for its buffer through `csv::Writer::into_inner`. The claim is only
/// that what comes back depends on the delimiter and the values alone.
#[verifier::external_body]
fn encode_record(delimiter: u8, fields: &Vec<String>) -> (r: Result<Vec<u8>, csv::Error>)
    ensures
        match r {
            Ok(bytes) => csv_record(delimiter, words(fields@)) == Some(bytes@),
            Err(_) => csv_record(delimiter, words(fields@)) is None,
        },
{
    let mut writer = csv::WriterBuilder::new().delimiter(delimiter).from_writer(Vec::new());
    writer.write_record(fields)?;
    writer.into_inner().map_err(|e| csv::Error::from(e.into_error()))
}

/// Trusted: a `csv::Reader` over the given bytes, with the given
/// delimiter, without a header line of its own and otherwise as
/// `csv::ReaderBuilder::new` sets it up, is asked for all its records
/// through `csv::Reader::records`. The claim is only that what comes back
/// depends on the delimiter and the bytes alone.
#[verifier::external_body]
fn parse_records(delimiter: u8, bytes: &[u8]) -> (r: Result<Vec<Vec<String>>, csv::Error>)
    ensures
        match r {
            Ok(records) => csv_records(delimiter, bytes@) == Some(texts(records@)),
            Err(_) => csv_records(delimiter, bytes@) is None,
        },
{
    let mut reader = csv::ReaderBuilder::new().delimiter(delimiter).has_headers(false).from_reader(
        bytes,
    );
    reader.records().map(|r| r.map(|record| record.iter().map(String::from).collect())).collect()
}

/// One field of a record: its name and its value as text.
#[derive(Debug, PartialEq, Eq)]
pub struct NamedValue {
    pub name: String,
    pub value: String,
}

/// A record: named values in the order of its fields.
#[derive(Debug, PartialEq, Eq)]
pub struct Record {
    pub fields: Vec<NamedValue>,
}

/// A [`Record`] as plain values: as many names as values.
pub struct RecordView {
    pub names: Seq<Seq<char>>,
    pub values: Seq<Seq<char>>,
}

impl View for Record {
    type V = RecordView;

    open spec fn view(&self) -> RecordView {
        RecordView {
            names: self.fields@.map_values(|f: NamedValue| f.name@),
            values: self.fields@.map_values(|f: NamedValue| f.value@),
        }
    }
}

/// The views of records.
pub open spec fn record_views(rows: Seq<Record>) -> Seq<RecordView> {
    rows.map_values(|r: Record| r@)
}

/// Why a file of records cannot be written or read.
#[derive(Clone, Copy, Debug, PartialEq, Eq, Structural)]
pub enum DelimitedError {
    /// The codec reported an error for the names or the values of the
    /// record at this index.
    Encode { row: usize },
    /// The codec reported an error for the bytes.
    Decode,
    /// The record at this index has another number of values than the
    /// first line.
    UnequalLengths { row: usize, expected: usize, found: usize },
    /// The file has a header, and the record at this index has other
    /// names than the first record.
    FieldNames { row: usize },
}

/// The bytes of the line that names the fields: that of the names of the
/// first record, where the file has a header and a record.
pub open spec fn head_bytes(delimiter: u8, header: bool, rows: Seq<RecordView>) -> Result<
    Seq<u8>,
    DelimitedError,
> {
    if header && rows.len() > 0 {
        match csv_record(delimiter, rows[0].names) {
            Some(bytes) => Ok(bytes),
            None => Err(DelimitedError::Encode { row: 0 }),
        }
    } else {
        Ok(Seq::empty())
    }
}

/// The bytes of the line of the record `row` at index `k`, in a file whose
/// first record is `first`.
pub open spec fn row_bytes(
    delimiter: u8,
    header: bool,
    first: RecordView,
    row: RecordView,
    k: int,
) -> Result<Seq<u8>, DelimitedError> {
    if header && row.names != first.names {
        Err(DelimitedError::FieldNames { row: k as usize })
    } else if row.values.len() != first.values.len() {
        Err(
            DelimitedError::UnequalLengths {
                row: k as usize,
                expected: first.values.len() as usize,
                found: row.values.len() as usize,
            },
        )
    } else {
        match csv_record(delimiter, row.values) {
            Some(bytes) => Ok(bytes),
            None => Err(DelimitedError::Encode { row: k as usize }),
        }
    }
}

/// The bytes of the header and the first `n` records, or the first fault
/// met on the way.
pub open spec fn rows_bytes(delimiter: u8, header: bool, rows: Seq<RecordView>, n: nat) -> Result<
    Seq<u8>,
    DelimitedError,
>
    decreases n,
{
    if n == 0 || n > rows.len() {
        head_bytes(delimiter, header, rows)
    } else {
        match rows_bytes(delimiter, header, rows, (n - 1) as nat) {
            Err(e) => Err(e),
            Ok(bytes) => match row_bytes(delimiter, header, rows[0], rows[n - 1], n - 1) {
                Err(e) => Err(e),
                Ok(line) => Ok(bytes + line),
            },
        }
    }
}

/// The bytes of a file of `rows`: a line of names where the file has a
/// header and a record, then a line of values for each record. A file
/// without records is empty.
pub open spec fn written(delimiter: u8, header: bool, rows: Seq<RecordView>) -> Result<
    Seq<u8>,
    DelimitedError,
> {
    rows_bytes(delimiter, header, rows, rows.len())
}

/// A fault met among the first `m` records is the fault of every longer
/// run of records.
pub proof fn lemma_rows_bytes_fault(
    delimiter: u8,
    header: bool,
    rows: Seq<RecordView>,
    m: nat,
    n: nat,
)
    requires
        m <= n <= rows.len(),
        rows_bytes(delimiter, header, rows, m) is Err,
    ensures
        rows_bytes(delimiter, header, rows, n) == rows_bytes(delimiter, header, rows, m),
    decreases n - m,
{
    if n > m {
        lemma_rows_bytes_fault(delimiter, header, rows, m, (n - 1) as nat);
    }
}

/// `n` empty names.
pub open spec fn no_names(n: nat) -> Seq<Seq<char>> {
    Seq::new(n, |i: int| Seq::<char>::empty())
}

/// The record of the values of the line at index `k` among the lines of
/// records, in a file whose first line is `first`: with its names where
/// the file has a header, without names where it has none.
pub open spec fn read_row(header: bool, first: Seq<Seq<char>>, values: Seq<Seq<char>>, k: int)
    -> Result<RecordView, DelimitedError> {
    if values.len() != first.len() {
        Err(
            DelimitedError::UnequalLengths {
                row: k as usize,
                expected: first.len() as usize,
                found: values.len() as usize,
            },
        )
    } else if header {
        Ok(RecordView { names: first, values })
    } else {
        Ok(RecordView { names: no_names(values.len()), values })
    }
}

/// The records of the first `n` of the lines `data`, or the first fault
/// met on the way.
pub open spec fn rows_from(header: bool, first: Seq<Seq<char>>, data: Seq<Seq<Seq<char>>>, n: nat)
    -> Result<Seq<RecordView>, DelimitedError>
    decreases n,
{
    if n == 0 || n > data.len() {
        Ok(Seq::empty())
    } else {
        match rows_from(header, first, data, (n - 1) as nat) {
            Err(e) => Err(e),
            Ok(rows) => match read_row(header, first, data[n - 1], n - 1) {
                Err(e) => Err(e),
                Ok(row) => Ok(rows.push(row)),
            },
        }
    }
}

/// A fault met among the first `m` lines is the fault of every longer run
/// of lines.
pub proof fn lemma_rows_from_fault(
    header: bool,
    first: Seq<Seq<char>>,
    data: Seq<Seq<Seq<char>>>,
    m: nat,
    n: nat,
)
    requires
        m <= n <= data.len(),
        rows_from(header, first, data, m) is Err,
    ensures
        rows_from(header, first, data, n) == rows_from(header, first, data, m),
    decreases n - m,
{
    if n > m {
        lemma_rows_from_fault(header, first, data, m, (n - 1) as nat);
    }
}

/// The lines of records among the lines of a file: all but the first
/// where the file has a header.
pub open spec fn data_lines(header: bool, lines: Seq<Seq<Seq<char>>>) -> Seq<Seq<Seq<char>>> {
    if header && lines.len() > 0 {
        lines.skip(1)
    } else {
        lines
    }
}

/// The records that the lines of a file stand for.
pub open spec fn records_of(header: bool, lines: Seq<Seq<Seq<char>>>) -> Result<
    Seq<RecordView>,
    DelimitedError,
> {
    if lines.len() == 0 {
        Ok(Seq::empty())
    } else {
        rows_from(
            header,
            lines[0],
            data_lines(header, lines),
            data_lines(header, lines).len(),
        )
    }
}

/// The records of a file of the given bytes.
pub open spec fn parsed(delimiter: u8, header: bool, bytes: Seq<u8>) -> Result<
    Seq<RecordView>,
    DelimitedError,
> {
    match csv_records(delimiter, bytes) {
        Some(lines) => records_of(header, lines),
        None => Err(DelimitedError::Decode),
    }
}

/// The view of records that were read.
pub open spec fn read_view(r: Result<Vec<Record>, DelimitedError>) -> Result<
    Seq<RecordView>,
    DelimitedError,
> {
    match r {
        Ok(rows) => Ok(record_views(rows@)),
        Err(e) => Err(e),
    }
}

/// The view of bytes that were written.
pub open spec fn written_view(r: Result<Vec<u8>, DelimitedError>) -> Result<
    Seq<u8>,
    DelimitedError,
> {
    match r {
        Ok(bytes) => Ok(bytes@),
        Err(e) => Err(e),
    }
}

/// Whether writing `rows` and reading what was written gives `rows` again,
/// or the fault that keeps the one or the other from being done.
pub open spec fn round_trip(delimiter: u8, header: bool, rows: Seq<RecordView>) -> Result<
    bool,
    DelimitedError,
> {
    match written(delimiter, header, rows) {
        Err(e) => Err(e),
        Ok(bytes) => match parsed(delimiter, header, bytes) {
            Err(e) => Err(e),
            Ok(back) => Ok(back == rows),
        },
    }
}

/// The lines that a file of `rows` holds, each a list of values: the
/// names of the first record where the file has a header and a record,
/// then the values of each record.
pub open spec fn lines_of(header: bool, rows: Seq<RecordView>) -> Seq<Seq<Seq<char>>> {
    let values = rows.map_values(|r: RecordView| r.values);
    if header && rows.len() > 0 {
        seq![rows[0].names] + values
    } else {
        values
    }
}

/// Whether `rows` can stand in one file: each record has as many names as
/// values and as many values as the first; with a header each has the
/// names of the first, without one none has a name that is not empty.
pub open spec fn uniform(header: bool, rows: Seq<RecordView>) -> bool {
    forall|k: int|
        0 <= k < rows.len() ==> {
            &&& (#[trigger] rows[k]).names.len() == rows[k].values.len()
            &&& rows[k].values.len() == rows[0].values.len()
            &&& header ==> rows[k].names == rows[0].names
            &&& !header ==> rows[k].names == no_names(rows[k].values.len())
        }
}

/// The lines of a file of records that can stand in one file, taken
/// as the lines of a file, give the records again: the names that are
/// written above the records are the names under which they are read.
pub proof fn lemma_lines_give_the_records(header: bool, rows: Seq<RecordView>)
    requires
        uniform(header, rows),
    ensures
        records_of(header, lines_of(header, rows)) == Ok::<Seq<RecordView>, DelimitedError>(
            rows,
        ),
{
    let lines = lines_of(header, rows);
    if rows.len() == 0 {
        assert(lines =~= Seq::<Seq<Seq<char>>>::empty());
        assert(rows =~= Seq::<RecordView>::empty());
    } else {
        let values = rows.map_values(|r: RecordView| r.values);
        let data = data_lines(header, lines);
        let first = lines[0];
        assert(values[0] == rows[0].values);
        if header {
            assert(lines.len() == rows.len() + 1);
            assert(first == rows[0].names);
            assert(lines.skip(1) =~= values);
        } else {
            assert(first == rows[0].values);
        }
        assert(data == values);
        assert(data.len() == rows.len());
        assert(rows[0].names.len() == rows[0].values.len());
        assert(first.len() == rows[0].values.len());
        lemma_rows_from_uniform(header, first, rows, data, rows.len());
        assert(rows.take(rows.len() as int) =~= rows);
        assert(lines.len() > 0);
        assert(records_of(header, lines) == rows_from(header, first, data, data.len()));
    }
}

/// The first `n` lines of records that can stand in one file give the
/// first `n` records.
proof fn lemma_rows_from_uniform(
    header: bool,
    first: Seq<Seq<char>>,
    rows: Seq<RecordView>,
    data: Seq<Seq<Seq<char>>>,
    n: nat,
)
    requires
        uniform(header, rows),
        rows.len() > 0,
        n <= rows.len(),
        data == rows.map_values(|r: RecordView| r.values),
        first.len() == rows[0].values.len(),
        header ==> first == rows[0].names,
    ensures
        rows_from(header, first, data, n) == Ok::<Seq<RecordView>, DelimitedError>(
            rows.take(n as int),
        ),
    decreases n,
{
    if n == 0 {
        assert(rows.take(0) =~= Seq::<RecordView>::empty());
    } else {
        lemma_rows_from_uniform(header, first, rows, data, (n - 1) as nat);
        let row = rows[n - 1];
        assert(data[n - 1] == row.values);
        assert(row.values.len() == rows[0].values.len());
        assert(read_row(header, first, data[n - 1], n - 1) == Ok::<RecordView, DelimitedError>(
            row,
        ));
        assert(rows.take(n as int) =~= rows.take(n - 1).push(row));
    }
}

/// The bytes of the lines `lines`, each as the codec writes it, one after
/// the other; nothing where the codec reports an error for one.
pub open spec fn lines_bytes(delimiter: u8, lines: Seq<Seq<Seq<char>>>) -> Option<Seq<u8>>
    decreases lines.len(),
{
    if lines.len() == 0 {
        Some(Seq::empty())
    } else {
        match lines_bytes(delimiter, lines.drop_last()) {
            None => None,
            Some(bytes) => match csv_record(delimiter, lines.last()) {
                None => None,
                Some(line) => Some(bytes + line),
            },
        }
    }
}

/// A file of records that can stand in one file holds the bytes of its
/// lines, each as the codec writes it.
pub proof fn lemma_written_is_the_lines(delimiter: u8, header: bool, rows: Seq<RecordView>)
    requires
        uniform(header, rows),
    ensures
        written(delimiter, header, rows) matches Ok(bytes) ==> lines_bytes(
            delimiter,
            lines_of(header, rows),
        ) == Some(bytes),
{
    lemma_rows_bytes_are_the_lines(delimiter, header, rows, rows.len());
    assert(rows.take(rows.len() as int) =~= rows);
}

/// The bytes of the header and the first `n` records are the bytes of the
/// lines of the first `n` records.
proof fn lemma_rows_bytes_are_the_lines(
    delimiter: u8,
    header: bool,
    rows: Seq<RecordView>,
    n: nat,
)
    requires
        uniform(header, rows),
        n <= rows.len(),
    ensures
        rows_bytes(delimiter, header, rows, n) matches Ok(bytes) ==> lines_bytes(
            delimiter,
            lines_of(header, rows.take(n as int)),
        ) == Some(bytes) || (n == 0 && header && rows.len() > 0 && csv_record(
            delimiter,
            rows[0].names,
        ) == Some(bytes)),
    decreases n,
{
    if n == 0 {
        assert(lines_of(header, rows.take(0)) =~= Seq::<Seq<Seq<char>>>::empty());
    } else {
        lemma_rows_bytes_are_the_lines(delimiter, header, rows, (n - 1) as nat);
        let shorter = rows.take(n - 1);
        let longer = rows.take(n as int);
        let row = rows[n - 1];
        assert(longer =~= shorter.push(row));
        assert(longer[0] == rows[0]);
        let lines = lines_of(header, longer);
        assert(lines.last() == row.values);
        if n == 1 {
            if header {
                assert(lines =~= seq![rows[0].names, row.values]);
                assert(lines.drop_last() =~= seq![rows[0].names]);
                assert(lines.drop_last().drop_last() =~= Seq::<Seq<Seq<char>>>::empty());
                assert(lines_bytes(delimiter, lines.drop_last().drop_last()) == Some(
                    Seq::<u8>::empty(),
                ));
                match csv_record(delimiter, rows[0].names) {
                    Some(head) => {
                        assert(Seq::<u8>::empty() + head =~= head);
                        assert(lines_bytes(delimiter, lines.drop_last()) == Some(head));
                    },
                    None => {},
                }
            } else {
                assert(lines =~= seq![row.values]);
                assert(lines.drop_last() =~= Seq::<Seq<Seq<char>>>::empty());
            }
        } else {
            assert(shorter[0] == rows[0]);
            assert(lines.drop_last() =~= lines_of(header, shorter));
        }
    }
}

/// Writing records that can stand in one file and reading what was
/// written gives the records again, provided that the codec reads the
/// bytes that it wrote for some lines as those lines.
pub proof fn lemma_round_trip(delimiter: u8, header: bool, rows: Seq<RecordView>)
    requires
        uniform(header, rows),
        written(delimiter, header, rows) is Ok,
        csv_records(delimiter, written(delimiter, header, rows)->Ok_0) == Some(
            lines_of(header, rows),
        ),
    ensures
        round_trip(delimiter, header, rows) == Ok::<bool, DelimitedError>(true),
{
    lemma_lines_give_the_records(header, rows);
}

impl Record {
    /// The record of the given names and values.
    pub fn new(fields: &[(&str, &str)]) -> (record: Record)
        ensures
            record@.names == fields@.map_values(|f: (&str, &str)| f.0@),
            record@.values == fields@.map_values(|f: (&str, &str)| f.1@),
    {
        let mut out: Vec<NamedValue> = Vec::new();
        let mut i: usize = 0;
        while i < fields.len()
            invariant
                i <= fields.len(),
                out@.len() == i,
                forall|k: int|
                    0 <= k < i ==> (#[trigger] out@[k]).name@ == fields@[k].0@ && out@[k].value@
                        == fields@[k].1@,
            decreases fields.len() - i,
        {
            let pair = &fields[i];
            out.push(NamedValue { name: String::from_str(pair.0), value: String::from_str(pair.1) });
            i = i + 1;
        }
        let record = Record { fields: out };
        assert(record@.names =~= fields@.map_values(|f: (&str, &str)| f.0@));
        assert(record@.values =~= fields@.map_values(|f: (&str, &str)| f.1@));
        record
    }

    /// The names of the fields, in order.
    pub fn names(&self) -> (names: Vec<String>)
        ensures
            words(names@) == self@.names,
    {
        let mut names: Vec<String> = Vec::new();
        let mut i: usize = 0;
        while i < self.fields.len()
            invariant
                i <= self.fields.len(),
                names@.len() == i,
                forall|k: int| 0 <= k < i ==> (#[trigger] names@[k])@ == self.fields@[k].name@,
            decreases self.fields.len() - i,
        {
            names.push(self.fields[i].name.clone());
            i = i + 1;
        }
        assert(words(names@) =~= self@.names);
        names
    }

    /// The values of the fields, in order.
    pub fn values(&self) -> (values: Vec<String>)
        ensures
            words(values@) == self@.values,
    {
        let mut values: Vec<String> = Vec::new();
        let mut i: usize = 0;
        while i < self.fields.len()
            invariant
                i <= self.fields.len(),
                values@.len() == i,
                forall|k: int| 0 <= k < i ==> (#[trigger] values@[k])@ == self.fields@[k].value@,
            decreases self.fields.len() - i,
        {
            values.push(self.fields[i].value.clone());
            i = i + 1;
        }
        assert(words(values@) =~= self@.values);
        values
    }

    /// Whether this record has the names of `other`, in the same order.
    pub fn same_names(&self, other: &Record) -> (r: bool)
        ensures
            r == (self@.names == other@.names),
    {
        if self.fields.len() != other.fields.len() {
            assert(self@.names.len() != other@.names.len());
            return false;
        }
        let mut i: usize = 0;
        while i < self.fields.len()
            invariant
                i <= self.fields.len(),
                self.fields.len() == other.fields.len(),
                forall|k: int| 0 <= k < i ==> self@.names[k] == other@.names[k],
            decreases self.fields.len() - i,
        {
            if !same_text(self.fields[i].name.as_str(), other.fields[i].name.as_str()) {
                assert(self@.names[i as int] != other@.names[i as int]);
                return false;
            }
            i = i + 1;
        }
        assert(self@.names =~= other@.names);
        true
    }

    /// Whether this record has the names and the values of `other`.
    pub fn same_as(&self, other: &Record) -> (r: bool)
        ensures
            r == (self@ == other@),
    {
        if self.fields.len() != other.fields.len() {
            assert(self@.names.len() != other@.names.len());
            return false;
        }
        let mut i: usize = 0;
        while i < self.fields.len()
            invariant
                i <= self.fields.len(),
                self.fields.len() == other.fields.len(),
                forall|k: int| 0 <= k < i ==> self@.names[k] == other@.names[k],
                forall|k: int| 0 <= k < i ==> self@.values[k] == other@.values[k],
            decreases self.fields.len() - i,
        {
            if !same_text(self.fields[i].name.as_str(), other.fields[i].name.as_str()) {
                assert(self@.names[i as int] != other@.names[i as int]);
                return false;
            }
            if !same_text(self.fields[i].value.as_str(), other.fields[i].value.as_str()) {
                assert(self@.values[i as int] != other@.values[i as int]);
                return false;
            }
            i = i + 1;
        }
        assert(self@.names =~= other@.names);
        assert(self@.values =~= other@.values);
        true
    }
}

/// Whether two lists hold the same records in the same order.
pub fn same_records(a: &Vec<Record>, b: &Vec<Record>) -> (r: bool)
    ensures
        r == (record_views(a@) == record_views(b@)),
{
    if a.len() != b.len() {
        assert(record_views(a@).len() != record_views(b@).len());
        return false;
    }
    let mut i: usize = 0;
    while i < a.len()
        invariant
            i <= a.len(),
            a.len() == b.len(),
            forall|k: int| 0 <= k < i ==> a@[k]@ == b@[k]@,
        decreases a.len() - i,
    {
        if !a[i].same_as(&b[i]) {
            assert(record_views(a@)[i as int] != record_views(b@)[i as int]);
            return false;
        }
        i = i + 1;
    }
    assert(record_views(a@) =~= record_views(b@));
    true
}

/// The bytes of a file of `rows` with the given delimiter, with or
/// without a header.
pub fn write_rows(delimiter: u8, has_headers: bool, rows: &Vec<Record>) -> (r: Result<
    Vec<u8>,
    DelimitedError,
>)
    ensures
        written_view(r) == written(delimiter, has_headers, record_views(rows@)),
{
    let ghost views = record_views(rows@);
    let mut out: Vec<u8> = Vec::new();
    if has_headers && rows.len() > 0 {
        let names = rows[0].names();
        match encode_record(delimiter, &names) {
            Ok(mut line) => {
                out.append(&mut line);
            },
            Err(_) => {
                proof {
                    lemma_rows_bytes_fault(delimiter, has_headers, views, 0, views.len());
                }
                return Err(DelimitedError::Encode { row: 0 });
            },
        }
    }
    assert(Ok::<Seq<u8>, DelimitedError>(out@) == head_bytes(delimiter, has_headers, views)) by {
        assert(Seq::<u8>::empty() + out@ =~= out@);
    }
    let mut k: usize = 0;
    while k < rows.len()
        invariant
            k <= rows.len(),
            views == record_views(rows@),
            rows_bytes(delimiter, has_headers, views, k as nat) == Ok::<Seq<u8>, DelimitedError>(
                out@,
            ),
        decreases rows.len() - k,
    {
        let row = &rows[k];
        let first = &rows[0];
        proof {
            assert(views[k as int] == row@);
            assert(views[0] == first@);
            assert(row@.values.len() == row.fields@.len());
            assert(first@.values.len() == first.fields@.len());
        }
        if has_headers && !row.same_names(first) {
            proof {
                lemma_rows_bytes_fault(
                    delimiter,
                    has_headers,
                    views,
                    (k + 1) as nat,
                    views.len(),
                );
            }
            return Err(DelimitedError::FieldNames { row: k });
        }
        if row.fields.len() != first.fields.len() {
            proof {
                lemma_rows_bytes_fault(
                    delimiter,
                    has_headers,
                    views,
                    (k + 1) as nat,
                    views.len(),
                );
            }
            return Err(
                DelimitedError::UnequalLengths {
                    row: k,
                    expected: first.fields.len(),
                    found: row.fields.len(),
                },
            );
        }
        let values = row.values();
        match encode_record(delimiter, &values) {
            Ok(mut line) => {
                out.append(&mut line);
            },
            Err(_) => {
                proof {
                    lemma_rows_bytes_fault(
                        delimiter,
                        has_headers,
                        views,
                        (k + 1) as nat,
                        views.len(),
                    );
                }
                return Err(DelimitedError::Encode { row: k });
            },
        }
        k = k + 1;
    }
    Ok(out)
}

/// The records that the lines `lines` of a file stand for, each line a
/// list of values.
pub fn rows_from_records(has_headers: bool, lines: &Vec<Vec<String>>) -> (r: Result<
    Vec<Record>,
    DelimitedError,
>)
    ensures
        read_view(r) == records_of(has_headers, texts(lines@)),
{
    let ghost all = texts(lines@);
    let mut rows: Vec<Record> = Vec::new();
    if lines.len() == 0 {
        assert(record_views(rows@) =~= Seq::<RecordView>::empty());
        return Ok(rows);
    }
    let start: usize = if has_headers {
        1
    } else {
        0
    };
    let ghost data = data_lines(has_headers, all);
    let ghost first = all[0];
    let mut k: usize = start;
    assert(record_views(rows@) =~= Seq::<RecordView>::empty());
    while k < lines.len()
        invariant
            start <= k <= lines.len(),
            start == (if has_headers {
                1usize
            } else {
                0usize
            }),
            lines.len() > 0,
            all == texts(lines@),
            data == data_lines(has_headers, all),
            first == all[0],
            data.len() == lines.len() - start,
            rows_from(has_headers, first, data, (k - start) as nat) == Ok::<
                Seq<RecordView>,
                DelimitedError,
            >(record_views(rows@)),
        decreases lines.len() - k,
    {
        let line = &lines[k];
        let names = &lines[0];
        proof {
            assert(data[k - start] == all[k as int]);
            assert(all[k as int] == words(line@));
            assert(first == words(names@));
        }
        if line.len() != names.len() {
            proof {
                lemma_rows_from_fault(
                    has_headers,
                    first,
                    data,
                    (k - start + 1) as nat,
                    data.len(),
                );
            }
            return Err(
                DelimitedError::UnequalLengths {
                    row: k - start,
                    expected: names.len(),
                    found: line.len(),
                },
            );
        }
        let mut fields: Vec<NamedValue> = Vec::new();
        let mut i: usize = 0;
        while i < line.len()
            invariant
                i <= line.len(),
                line.len() == names.len(),
                fields@.len() == i,
                forall|j: int| 0 <= j < i ==> (#[trigger] fields@[j]).value@ == line@[j]@,
                forall|j: int|
                    0 <= j < i ==> (#[trigger] fields@[j]).name@ == (if has_headers {
                        names@[j]@
                    } else {
                        Seq::<char>::empty()
                    }),
            decreases line.len() - i,
        {
            let name = if has_headers {
                names[i].clone()
            } else {
                String::new()
            };
            fields.push(NamedValue { name, value: line[i].clone() });
            i = i + 1;
        }
        let record = Record { fields };
        proof {
            assert(record@.values =~= words(line@));
            if has_headers {
                assert(record@.names =~= first);
            } else {
                assert(record@.names =~= no_names(line@.len() as nat));
            }
            assert(read_row(has_headers, first, data[k - start], k - start) == Ok::<
                RecordView,
                DelimitedError,
            >(record@));
        }
        let ghost before = record_views(rows@);
        rows.push(record);
        assert(record_views(rows@) =~= before.push(record@));
        k = k + 1;
    }
    Ok(rows)
}

/// The records of a file of the given bytes with the given delimiter, with
/// or without a header.
pub fn read_rows(delimiter: u8, has_headers: bool, bytes: &[u8]) -> (r: Result<
    Vec<Record>,
    DelimitedError,
>)
    ensures
        read_view(r) == parsed(delimiter, has_headers, bytes@),
{
    match parse_records(delimiter, bytes) {
        Ok(lines) => rows_from_records(has_headers, &lines),
        Err(_) => Err(DelimitedError::Decode),
    }
}

/// Whether writing `input` with the given delimiter, with or without a
/// header, and reading what was written gives `input` again; the fault
/// where the one or the other cannot be done.
pub fn round_trip_rows(delimiter: u8, has_headers: bool, input: &Vec<Record>) -> (r: Result<
    bool,
    DelimitedError,
>)
    ensures
        r == round_trip(delimiter, has_headers, record_views(input@)),
{
    let bytes = match write_rows(delimiter, has_headers, input) {
        Ok(bytes) => bytes,
        Err(e) => {
            return Err(e);
        },
    };
    let back = match read_rows(delimiter, has_headers, bytes.as_slice()) {
        Ok(back) => back,
        Err(e) => {
            return Err(e);
        },
    };
    Ok(same_records(&back, input))
}

/// What sets the values of a record apart in a file.
pub trait Delimiter {
    /// The byte between two values.
    fn delimiter() -> u8;

    /// The name of the format, which is its extension; empty where the
    /// format has no extension of its own.
    fn format() -> String;

    /// Whether the first line of a file names the fields.
    fn header() -> bool {
        true
    }
}

/// The extension of a delimited file of the kind whose extension is
/// `kind`, in the format whose name is `format`: `kind` where it ends with
/// `format`, else `kind`, a dot and `format`.
pub open spec fn delimited_extension(kind: Seq<char>, format: Seq<char>) -> Seq<char> {
    if ends_with(kind, format) || format.len() == 0 {
        kind
    } else {
        kind + "."@ + format
    }
}

/// The extension of a delimited file of the kind whose extension is
/// `kind`, in the format whose name is `format`.
pub fn extension_of(kind: String, format: &str) -> (e: String)
    ensures
        e@ == delimited_extension(kind@, format@),
{
    if str_ends_with(kind.as_str(), format) || format.unicode_len() == 0 {
        kind
    } else {
        let mut e = kind;
        e.append(".");
        e.append(format);
        e
    }
}

/// A file of the kind `F` that holds records in the format `D`.
#[derive(Debug)]
pub struct DelimitedFormat<F: MartianFileType, D: Delimiter> {
    path: String,
    phantom: PhantomData<(F, D)>,
}

impl<F: MartianFileType, D: Delimiter> DelimitedFormat<F, D> {
    /// The path of the file.
    pub closed spec fn path(&self) -> Seq<char> {
        self.path@
    }
}

/// `e` is the extension of a file of the kind `F` in the format `D`: that
/// of the extension that `F` gives in the format whose name `D` gives.
pub open spec fn extension_for<F: MartianFileType, D: Delimiter>(e: Seq<char>) -> bool {
    exists|kind: String, format: String|
        call_ensures(F::extension, (), kind) && call_ensures(D::format, (), format) && e
            == #[trigger] delimited_extension(kind@, format@)
}

/// `delimiter` and `header` are what the format `D` gives for its
/// delimiter and for whether its files have a header.
pub open spec fn format_of<D: Delimiter>(delimiter: u8, header: bool) -> bool {
    call_ensures(D::delimiter, (), delimiter) && call_ensures(D::header, (), header)
}

impl<F: MartianFileType, D: Delimiter> MartianFileType for DelimitedFormat<F, D> {
    /// The extension of the kind `F` in the format `D`: that of the
    /// extension that `F` gives in the format whose name `D` gives.
    fn extension() -> (e: String)
        ensures
            extension_for::<F, D>(e@),
    {
        let kind = F::extension();
        let format = D::format();
        let e = extension_of(kind, format.as_str());
        assert(e@ == delimited_extension(kind@, format@));
        e
    }

    /// The file `file_name` below `file_path`, with the extension of the
    /// kind `F` in the format `D`.
    fn new(file_path: &str, file_name: &str) -> (file: Self)
        ensures
            exists|extension: Seq<char>| #[trigger]
                extension_for::<F, D>(extension) && file.path() == file_path_of(
                    file_path@,
                    file_name@,
                    extension,
                ),
    {
        let extension = Self::extension();
        let path = make_file_path(file_path, file_name, extension.as_str());
        assert(extension_for::<F, D>(extension@));
        DelimitedFormat { phantom: PhantomData, path }
    }

    fn as_ref(&self) -> (path: &str)
        ensures
            path@ == self.path(),
    {
        self.path.as_str()
    }
}

/// A kind of file that holds a list of records as bytes.
pub trait FileTypeIO: MartianFileType {
    /// The records of a file of `bytes`.
    fn read_from(bytes: &[u8]) -> Result<Vec<Record>, DelimitedError>;

    /// The bytes of a file of `item`.
    fn write_into(item: &Vec<Record>) -> Result<Vec<u8>, DelimitedError>;
}

impl<F: MartianFileType, D: Delimiter> FileTypeIO for DelimitedFormat<F, D> {
    /// The records of a file of `bytes`, read with the delimiter that `D`
    /// gives, with a header where `D` says that its files have one.
    fn read_from(bytes: &[u8]) -> (r: Result<Vec<Record>, DelimitedError>)
        ensures
            exists|delimiter: u8, header: bool| #[trigger]
                format_of::<D>(delimiter, header) && read_view(r) == parsed(
                    delimiter,
                    header,
                    bytes@,
                ),
    {
        let delimiter: u8 = D::delimiter();
        let header = D::header();
        let r = read_rows(delimiter, header, bytes);
        assert(format_of::<D>(delimiter, header) && read_view(r) == parsed(
            delimiter,
            header,
            bytes@,
        ));
        r
    }

    /// The bytes of a file of `item`, written with the delimiter that `D`
    /// gives, with a header where `D` says that its files have one.
    fn write_into(item: &Vec<Record>) -> (r: Result<Vec<u8>, DelimitedError>)
        ensures
            exists|delimiter: u8, header: bool| #[trigger]
                format_of::<D>(delimiter, header) && written_view(r) == written(
                    delimiter,
                    header,
                    record_views(item@),
                ),
    {
        let delimiter: u8 = D::delimiter();
        let header = D::header();
        let r = write_rows(delimiter, header, item);
        assert(format_of::<D>(delimiter, header) && written_view(r) == written(
            delimiter,
            header,
            record_views(item@),
        ));
        r
    }
}

/// What a round trip comes to, given what writing gave and what reading
/// what was written gave: the fault of the one or the other, else whether
/// the records that were read are those of `input`.
pub open spec fn round_trip_outcome(
    input: Seq<RecordView>,
    wrote: Result<Seq<u8>, DelimitedError>,
    read: Result<Seq<RecordView>, DelimitedError>,
) -> Result<bool, DelimitedError> {
    match wrote {
        Err(e) => Err(e),
        Ok(_) => match read {
            Err(e) => Err(e),
            Ok(back) => Ok(back == input),
        },
    }
}

/// `wrote` is what writing `input` as a file of the kind `F` gave, and
/// `read` is what reading the bytes that were written gave, where some
/// were written.
pub open spec fn round_trip_steps<F: FileTypeIO>(
    input: &Vec<Record>,
    wrote: Result<Vec<u8>, DelimitedError>,
    bytes: &[u8],
    read: Result<Vec<Record>, DelimitedError>,
) -> bool {
    &&& call_ensures(F::write_into, (input,), wrote)
    &&& wrote matches Ok(w) ==> bytes@ == w@ && call_ensures(F::read_from, (bytes,), read)
}

/// Whether writing `input` as a file of the kind `F` and reading what was
/// written gives `input` again; the fault where the one or the other
/// cannot be done. What is written is what `F` writes for `input`, and
/// what is read is what `F` reads from those bytes.
pub fn round_trip_check<F: FileTypeIO>(input: &Vec<Record>) -> (r: Result<bool, DelimitedError>)
    ensures
        exists|
            wrote: Result<Vec<u8>, DelimitedError>,
            bytes: &[u8],
            read: Result<Vec<Record>, DelimitedError>,
        | #[trigger]
            round_trip_steps::<F>(input, wrote, bytes, read) && r == round_trip_outcome(
                record_views(input@),
                written_view(wrote),
                read_view(read),
            ),
{
    let wrote = F::write_into(input);
    let ghost written_result = wrote;
    let bytes = match wrote {
        Ok(bytes) => bytes,
        Err(e) => {
            let ghost none: &[u8] = arbitrary();
            assert(round_trip_steps::<F>(input, written_result, none, Err(e)) && Err::<
                bool,
                DelimitedError,
            >(e) == round_trip_outcome(
                record_views(input@),
                written_view(written_result),
                read_view(Err(e)),
            ));
            return Err(e);
        },
    };
    let slice = bytes.as_slice();
    let read = F::read_from(slice);
    let ghost read_result = read;
    let r = match read {
        Ok(back) => Ok(same_records(&back, input)),
        Err(e) => Err(e),
    };
    assert(round_trip_steps::<F>(input, written_result, slice, read_result) && r
        == round_trip_outcome(
        record_views(input@),
        written_view(written_result),
        read_view(read_result),
    ));
    r
}

/// Values set apart by commas, under a line of names.
#[derive(Debug)]
pub struct CommaDelimiter;

impl Delimiter for CommaDelimiter {
    fn delimiter() -> (d: u8)
        ensures
            d == 44,
    {
        44
    }

    fn format() -> (f: String)
        ensures
            f@ == "csv"@,
    {
        String::from_str("csv")
    }

    fn header() -> (h: bool)
        ensures
            h,
    {
        true
    }
}

/// Values set apart by tabs, under a line of names.
#[derive(Debug)]
pub struct TabDelimiter;

impl Delimiter for TabDelimiter {
    fn delimiter() -> (d: u8)
        ensures
            d == 9,
    {
        9
    }

    fn format() -> (f: String)
        ensures
            f@ == "tsv"@,
    {
        String::from_str("tsv")
    }

    fn header() -> (h: bool)
        ensures
            h,
    {
        true
    }
}

/// A file of comma-separated values.
#[derive(Debug)]
pub struct Csv {
    path: String,
}

impl Csv {
    /// The path of the file.
    pub closed spec fn path(&self) -> Seq<char> {
        self.path@
    }
}

impl MartianFileType for Csv {
    fn extension() -> (e: String)
        ensures
            e@ == "csv"@,
    {
        String::from_str("csv")
    }

    fn new(file_path: &str, file_name: &str) -> (file: Self)
        ensures
            file.path() == file_path_of(file_path@, file_name@, "csv"@),
    {
        Csv { path: make_file_path(file_path, file_name, "csv") }
    }

    fn as_ref(&self) -> (path: &str)
        ensures
            path@ == self.path(),
    {
        self.path.as_str()
    }
}

/// A file of tab-separated values.
#[derive(Debug)]
pub struct Tsv {
    path: String,
}

impl Tsv {
    /// The path of the file.
    pub closed spec fn path(&self) -> Seq<char> {
        self.path@
    }
}

impl MartianFileType for Tsv {
    fn extension() -> (e: String)
        ensures
            e@ == "tsv"@,
    {
        String::from_str("tsv")
    }

    fn new(file_path: &str, file_name: &str) -> (file: Self)
        ensures
            file.path() == file_path_of(file_path@, file_name@, "tsv"@),
    {
        Tsv { path: make_file_path(file_path, file_name, "tsv") }
    }

    fn as_ref(&self) -> (path: &str)
        ensures
            path@ == self.path(),
    {
        self.path.as_str()
    }
}

/// A file of the kind `F` in the comma-separated format.
pub type CsvFormat<F> = DelimitedFormat<F, CommaDelimiter>;

/// A file of comma-separated values that holds records.
pub type CsvFile = CsvFormat<Csv>;

/// A file of the kind `F` in the tab-separated format.
pub type TsvFormat<F> = DelimitedFormat<F, TabDelimiter>;

/// A file of tab-separated values that holds records.
pub type TsvFile = TsvFormat<Tsv>;

} // verus!
