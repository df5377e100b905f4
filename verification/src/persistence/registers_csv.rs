//! The register table (`tags.csv`): `;`-separated records, the first naming
//! the columns `name`, `description`, `address`, `var_type`, `modbus_type`,
//! `enabled`, then one record per register.
use vstd::prelude::*;

use crate::config::model::{
    registers_view, Metadata, RegisterConfig, RegisterView, RegistersConfig,
};
use crate::text::{
    chars_of, decimal, digit_value, lemma_decimal_digits, parse_unsigned, parse_unsigned_from,
    push_decimal, str_equal,
};

verus! {

// ---------------------------------------------------------------------------
// The CSV codec
// ---------------------------------------------------------------------------

/// csv's error type, carried through unopened.
#[verifier::external_type_specification]
#[verifier::external_body]
pub struct ExCsvError(csv::Error);

/// What csv's reader, set to the delimiter `;` and a header row, yields for
/// `bytes`: the header fields (`None` when the header row is not valid
/// UTF-8), the data records read before the first failure, and whether
/// reading failed.
pub uninterp spec fn csv_semicolon_table(bytes: Seq<u8>) -> (
    Option<Seq<Seq<char>>>,
    Seq<Seq<Seq<char>>>,
    bool,
);

/// The bytes that csv's writer, set to the delimiter `;`, produces for
/// `records`.
pub uninterp spec fn csv_semicolon_bytes(records: Seq<Seq<Seq<char>>>) -> Seq<u8>;

/// What a CSV reader returned: the header fields, the data records read in
/// order, and the error that stopped it, if any.
pub struct CsvTable {
    pub headers: Option<Vec<String>>,
    pub rows: Vec<Vec<String>>,
    pub error: Option<csv::Error>,
}

impl CsvTable {
    pub open spec fn headers_view(&self) -> Option<Seq<Seq<char>>> {
        self.headers.deep_view()
    }

    pub open spec fn rows_view(&self) -> Seq<Seq<Seq<char>>> {
        self.rows.deep_view()
    }
}

/// Reads `bytes` with `csv::ReaderBuilder` (delimiter `;`, header row):
/// first `Reader::headers`, then `Reader::records` up to the first error.
/// The contract claims that the header fields, the records and whether an
/// error came are `csv_semicolon_table` of the bytes; what the error says is
/// left unsaid.
#[verifier::external_body]
fn read_semicolon_table(bytes: &[u8]) -> (t: CsvTable)
    ensures
        csv_semicolon_table(bytes@) == (t.headers_view(), t.rows_view(), t.error is Some),
{
    let mut rdr = csv::ReaderBuilder::new().delimiter(b';').has_headers(true).from_reader(bytes);
    let headers = rdr.headers().ok().map(|h| h.iter().map(String::from).collect());
    let mut rows: Vec<Vec<String>> = Vec::new();
    for record in rdr.records() {
        match record {
            Ok(r) => rows.push(r.iter().map(String::from).collect()),
            Err(e) => return CsvTable { headers, rows, error: Some(e) },
        }
    }
    CsvTable { headers, rows, error: None }
}

/// Writes `records` with `csv::WriterBuilder` (delimiter `;`) into memory.
/// The contract claims that the writer succeeds when every record has as
/// many fields as the first (its only error besides I/O is
/// `UnequalLengths`, and writing into a `Vec` does no failing I/O), and
/// that the bytes are then `csv_semicolon_bytes` of the records. It also
/// claims that csv's reader (the one behind `csv_semicolon_table`) reads
/// the first record back as the header and the others as the data records,
/// without error, when the records are non-empty, of one length of at least
/// one field, and the very first field does not begin with a byte order
/// mark: the writer quotes every field that holds `;`, `"`, `\r` or `\n`
/// and doubles its quotes, writes `""` only for a record with no bytes, and
/// the reader strips a byte order mark only at the start of its input.
#[verifier::external_body]
fn write_semicolon_records(records: &Vec<Vec<String>>) -> (r: Result<Vec<u8>, csv::Error>)
    ensures
        (forall|i: int|
            0 <= i < records.deep_view().len() ==> #[trigger] records.deep_view()[i].len()
                == records.deep_view()[0].len()) ==> r is Ok,
        r matches Ok(b) ==> b@ == csv_semicolon_bytes(records.deep_view()),
        r matches Ok(b) ==> (records.deep_view().len() > 0 && records.deep_view()[0].len() > 0
            && (forall|i: int|
            0 <= i < records.deep_view().len() ==> #[trigger] records.deep_view()[i].len()
                == records.deep_view()[0].len()) && !(records.deep_view()[0][0].len() > 0
            && records.deep_view()[0][0][0] == '\u{feff}') ==> csv_semicolon_table(b@) == (
            Some(records.deep_view()[0]),
            records.deep_view().skip(1),
            false,
        )),
{
    let mut writer = csv::WriterBuilder::new().delimiter(b';').from_writer(Vec::new());
    for record in records {
        writer.write_record(record)?;
    }
    writer.into_inner().map_err(|e| csv::Error::from(e.into_error()))
}

// ---------------------------------------------------------------------------
// Columns
// ---------------------------------------------------------------------------

/// A column of the register table, one per field of `RegisterConfig`.
#[derive(Debug, Clone, Copy, PartialEq, Eq, Structural)]
pub enum RegisterField {
    Name,
    Description,
    Address,
    VarType,
    ModbusType,
    Enabled,
}

/// The column name of each field.
pub open spec fn spec_field_name(f: RegisterField) -> Seq<char> {
    match f {
        RegisterField::Name => "name"@,
        RegisterField::Description => "description"@,
        RegisterField::Address => "address"@,
        RegisterField::VarType => "var_type"@,
        RegisterField::ModbusType => "modbus_type"@,
        RegisterField::Enabled => "enabled"@,
    }
}

/// The field that a header names, if any; other headers are ignored.
pub open spec fn spec_field_of_header(h: Seq<char>) -> Option<RegisterField> {
    if h == "name"@ {
        Some(RegisterField::Name)
    } else if h == "description"@ {
        Some(RegisterField::Description)
    } else if h == "address"@ {
        Some(RegisterField::Address)
    } else if h == "var_type"@ {
        Some(RegisterField::VarType)
    } else if h == "modbus_type"@ {
        Some(RegisterField::ModbusType)
    } else if h == "enabled"@ {
        Some(RegisterField::Enabled)
    } else {
        None
    }
}

pub fn field_of_header(h: &str) -> (r: Option<RegisterField>)
    ensures
        r == spec_field_of_header(h@),
{
    if str_equal(h, "name") {
        Some(RegisterField::Name)
    } else if str_equal(h, "description") {
        Some(RegisterField::Description)
    } else if str_equal(h, "address") {
        Some(RegisterField::Address)
    } else if str_equal(h, "var_type") {
        Some(RegisterField::VarType)
    } else if str_equal(h, "modbus_type") {
        Some(RegisterField::ModbusType)
    } else if str_equal(h, "enabled") {
        Some(RegisterField::Enabled)
    } else {
        None
    }
}

// ---------------------------------------------------------------------------
// Field values
// ---------------------------------------------------------------------------

/// An address: hexadecimal after a `0x` prefix, decimal otherwise, each with
/// an optional `+`, and at most 65535.
pub open spec fn spec_parse_address(s: Seq<char>) -> Option<u16> {
    let parsed = if s.len() >= 2 && s[0] == '0' && s[1] == 'x' {
        parse_unsigned(s.skip(2), 16, 65535)
    } else {
        parse_unsigned(s, 10, 65535)
    };
    match parsed {
        Some(v) => Some(v as u16),
        None => None,
    }
}

pub fn parse_address(s: &str) -> (r: Option<u16>)
    ensures
        r == spec_parse_address(s@),
{
    let v = chars_of(s);
    let n = v.len();
    let parsed = if n >= 2 && v[0] == '0' && v[1] == 'x' {
        assert(v@.subrange(2, n as int) == v@.skip(2));
        parse_unsigned_from(&v, 2, 16, 65535)
    } else {
        assert(v@.subrange(0, n as int) == v@);
        parse_unsigned_from(&v, 0, 10, 65535)
    };
    match parsed {
        Some(a) => Some(a as u16),
        None => None,
    }
}

/// `enabled`: exactly `true` or `false`.
pub open spec fn spec_parse_bool(s: Seq<char>) -> Option<bool> {
    if s == "true"@ {
        Some(true)
    } else if s == "false"@ {
        Some(false)
    } else {
        None
    }
}

pub fn parse_bool(s: &str) -> (r: Option<bool>)
    ensures
        r == spec_parse_bool(s@),
{
    if str_equal(s, "true") {
        Some(true)
    } else if str_equal(s, "false") {
        Some(false)
    } else {
        None
    }
}

// ---------------------------------------------------------------------------
// Records
// ---------------------------------------------------------------------------

/// Why a record is not a register.
#[derive(Debug, Clone, Copy, PartialEq, Eq, Structural)]
pub enum RecordError {
    /// A column names a field that an earlier column already named.
    DuplicateField(RegisterField),
    /// No column names this field.
    MissingField(RegisterField),
    /// The field's text is not a value of its type.
    InvalidValue(RegisterField),
    /// The record has fewer fields than there are headers.
    UnexpectedEndOfRow,
    /// Without headers: the record ends before this many fields.
    InvalidLength(usize),
}

/// The fields found so far while reading a record.
pub struct PartialRegister {
    pub name: Option<Seq<char>>,
    pub description: Option<Seq<char>>,
    pub address: Option<u16>,
    pub var_type: Option<Seq<char>>,
    pub modbus_type: Option<Seq<char>>,
    pub enabled: Option<bool>,
}

pub open spec fn empty_partial() -> PartialRegister {
    PartialRegister {
        name: None,
        description: None,
        address: None,
        var_type: None,
        modbus_type: None,
        enabled: None,
    }
}

pub open spec fn has_field(p: PartialRegister, f: RegisterField) -> bool {
    match f {
        RegisterField::Name => p.name is Some,
        RegisterField::Description => p.description is Some,
        RegisterField::Address => p.address is Some,
        RegisterField::VarType => p.var_type is Some,
        RegisterField::ModbusType => p.modbus_type is Some,
        RegisterField::Enabled => p.enabled is Some,
    }
}

/// Records the text `v` as field `f`.
pub open spec fn set_field(p: PartialRegister, f: RegisterField, v: Seq<char>) -> Result<
    PartialRegister,
    RecordError,
> {
    match f {
        RegisterField::Name => Ok(PartialRegister { name: Some(v), ..p }),
        RegisterField::Description => Ok(PartialRegister { description: Some(v), ..p }),
        RegisterField::Address => match spec_parse_address(v) {
            Some(a) => Ok(PartialRegister { address: Some(a), ..p }),
            None => Err(RecordError::InvalidValue(f)),
        },
        RegisterField::VarType => Ok(PartialRegister { var_type: Some(v), ..p }),
        RegisterField::ModbusType => Ok(PartialRegister { modbus_type: Some(v), ..p }),
        RegisterField::Enabled => match spec_parse_bool(v) {
            Some(b) => Ok(PartialRegister { enabled: Some(b), ..p }),
            None => Err(RecordError::InvalidValue(f)),
        },
    }
}

/// Column `i` of a record read by header name: an unknown header skips
/// the column, a known one must not repeat and its text must be a value.
pub open spec fn keyed_step(
    p: PartialRegister,
    headers: Seq<Seq<char>>,
    row: Seq<Seq<char>>,
    i: int,
) -> Result<PartialRegister, RecordError> {
    match spec_field_of_header(headers[i]) {
        None => if i < row.len() {
            Ok(p)
        } else {
            Err(RecordError::UnexpectedEndOfRow)
        },
        Some(f) => if has_field(p, f) {
            Err(RecordError::DuplicateField(f))
        } else if i >= row.len() {
            Err(RecordError::UnexpectedEndOfRow)
        } else {
            set_field(p, f, row[i])
        },
    }
}

/// The first `n` columns of a record read by header name.
pub open spec fn keyed_partial(headers: Seq<Seq<char>>, row: Seq<Seq<char>>, n: nat) -> Result<
    PartialRegister,
    RecordError,
>
    decreases n,
{
    if n == 0 {
        Ok(empty_partial())
    } else {
        match keyed_partial(headers, row, (n - 1) as nat) {
            Ok(p) => keyed_step(p, headers, row, n - 1),
            Err(e) => Err(e),
        }
    }
}

/// The register of a record once every column was read; the first missing
/// field, in declaration order, is reported.
pub open spec fn finish_partial(p: PartialRegister) -> Result<RegisterView, RecordError> {
    if p.name is None {
        Err(RecordError::MissingField(RegisterField::Name))
    } else if p.description is None {
        Err(RecordError::MissingField(RegisterField::Description))
    } else if p.address is None {
        Err(RecordError::MissingField(RegisterField::Address))
    } else if p.var_type is None {
        Err(RecordError::MissingField(RegisterField::VarType))
    } else if p.modbus_type is None {
        Err(RecordError::MissingField(RegisterField::ModbusType))
    } else if p.enabled is None {
        Err(RecordError::MissingField(RegisterField::Enabled))
    } else {
        Ok(
            RegisterView {
                name: p.name->0,
                description: p.description->0,
                address: p.address->0,
                var_type: p.var_type->0,
                modbus_type: p.modbus_type->0,
                enabled: p.enabled->0,
            },
        )
    }
}

/// A record read without headers: the fields in declaration order; fields
/// after the sixth are ignored.
pub open spec fn positional_record(row: Seq<Seq<char>>) -> Result<RegisterView, RecordError> {
    if row.len() < 1 {
        Err(RecordError::InvalidLength(0))
    } else if row.len() < 2 {
        Err(RecordError::InvalidLength(1))
    } else if row.len() < 3 {
        Err(RecordError::InvalidLength(2))
    } else if spec_parse_address(row[2]) is None {
        Err(RecordError::InvalidValue(RegisterField::Address))
    } else if row.len() < 4 {
        Err(RecordError::InvalidLength(3))
    } else if row.len() < 5 {
        Err(RecordError::InvalidLength(4))
    } else if row.len() < 6 {
        Err(RecordError::InvalidLength(5))
    } else if spec_parse_bool(row[5]) is None {
        Err(RecordError::InvalidValue(RegisterField::Enabled))
    } else {
        Ok(
            RegisterView {
                name: row[0],
                description: row[1],
                address: spec_parse_address(row[2])->0,
                var_type: row[3],
                modbus_type: row[4],
                enabled: spec_parse_bool(row[5])->0,
            },
        )
    }
}

/// The register that a record describes, read by header name when the
/// headers are known and by position otherwise.
pub open spec fn spec_decode_record(headers: Option<Seq<Seq<char>>>, row: Seq<Seq<char>>) -> Result<
    RegisterView,
    RecordError,
> {
    match headers {
        Some(h) => match keyed_partial(h, row, h.len()) {
            Ok(p) => finish_partial(p),
            Err(e) => Err(e),
        },
        None => positional_record(row),
    }
}

proof fn lemma_keyed_error_stays(headers: Seq<Seq<char>>, row: Seq<Seq<char>>, i: nat, n: nat)
    requires
        i <= n,
        keyed_partial(headers, row, i) is Err,
    ensures
        keyed_partial(headers, row, n) == keyed_partial(headers, row, i),
    decreases n - i,
{
    if i < n {
        lemma_keyed_error_stays(headers, row, i, (n - 1) as nat);
    }
}

/// The exec counterpart of `PartialRegister`.
struct PartialRecord {
    name: Option<String>,
    description: Option<String>,
    address: Option<u16>,
    var_type: Option<String>,
    modbus_type: Option<String>,
    enabled: Option<bool>,
}

impl View for PartialRecord {
    type V = PartialRegister;

    closed spec fn view(&self) -> PartialRegister {
        PartialRegister {
            name: self.name.deep_view(),
            description: self.description.deep_view(),
            address: self.address,
            var_type: self.var_type.deep_view(),
            modbus_type: self.modbus_type.deep_view(),
            enabled: self.enabled,
        }
    }
}

fn has_field_exec(p: &PartialRecord, f: RegisterField) -> (r: bool)
    ensures
        r == has_field(p@, f),
{
    match f {
        RegisterField::Name => p.name.is_some(),
        RegisterField::Description => p.description.is_some(),
        RegisterField::Address => p.address.is_some(),
        RegisterField::VarType => p.var_type.is_some(),
        RegisterField::ModbusType => p.modbus_type.is_some(),
        RegisterField::Enabled => p.enabled.is_some(),
    }
}

fn set_field_exec(p: &mut PartialRecord, f: RegisterField, v: &String) -> (r: Result<
    (),
    RecordError,
>)
    ensures
        match set_field(old(p)@, f, v@) {
            Ok(q) => r is Ok && final(p)@ == q,
            Err(e) => r == Err::<(), RecordError>(e),
        },
{
    match f {
        RegisterField::Name => {
            p.name = Some(v.clone());
            Ok(())
        },
        RegisterField::Description => {
            p.description = Some(v.clone());
            Ok(())
        },
        RegisterField::Address => match parse_address(v.as_str()) {
            Some(a) => {
                p.address = Some(a);
                Ok(())
            },
            None => Err(RecordError::InvalidValue(f)),
        },
        RegisterField::VarType => {
            p.var_type = Some(v.clone());
            Ok(())
        },
        RegisterField::ModbusType => {
            p.modbus_type = Some(v.clone());
            Ok(())
        },
        RegisterField::Enabled => match parse_bool(v.as_str()) {
            Some(b) => {
                p.enabled = Some(b);
                Ok(())
            },
            None => Err(RecordError::InvalidValue(f)),
        },
    }
}

/// Whether `r` is the exec outcome that the spec outcome `s` describes.
pub open spec fn record_outcome(
    r: Result<RegisterConfig, RecordError>,
    s: Result<RegisterView, RecordError>,
) -> bool {
    match s {
        Ok(v) => r matches Ok(x) && x@ == v,
        Err(e) => r matches Err(x) && x == e,
    }
}

fn finish_record(p: PartialRecord) -> (r: Result<RegisterConfig, RecordError>)
    ensures
        record_outcome(r, finish_partial(p@)),
{
    let PartialRecord { name, description, address, var_type, modbus_type, enabled } = p;
    match (name, description, address, var_type, modbus_type, enabled) {
        (Some(name), Some(description), Some(address), Some(var_type), Some(modbus_type), Some(
            enabled,
        )) => Ok(RegisterConfig { name, description, address, var_type, modbus_type, enabled }),
        (None, _, _, _, _, _) => Err(RecordError::MissingField(RegisterField::Name)),
        (_, None, _, _, _, _) => Err(RecordError::MissingField(RegisterField::Description)),
        (_, _, None, _, _, _) => Err(RecordError::MissingField(RegisterField::Address)),
        (_, _, _, None, _, _) => Err(RecordError::MissingField(RegisterField::VarType)),
        (_, _, _, _, None, _) => Err(RecordError::MissingField(RegisterField::ModbusType)),
        (_, _, _, _, _, None) => Err(RecordError::MissingField(RegisterField::Enabled)),
    }
}

fn decode_keyed(headers: &Vec<String>, row: &Vec<String>) -> (r: Result<RegisterConfig, RecordError>)
    ensures
        record_outcome(r, spec_decode_record(Some(headers.deep_view()), row.deep_view())),
{
    let ghost hv = headers.deep_view();
    let ghost rv = row.deep_view();
    let n = headers.len();
    let mut p = PartialRecord {
        name: None,
        description: None,
        address: None,
        var_type: None,
        modbus_type: None,
        enabled: None,
    };
    for i in 0..n
        invariant
            n == hv.len(),
            hv == headers.deep_view(),
            rv == row.deep_view(),
            keyed_partial(hv, rv, i as nat) == Ok::<PartialRegister, RecordError>(p@),
    {
        let ghost before = p@;
        assert(hv[i as int] == headers@[i as int]@);
        let step: Result<(), RecordError> = match field_of_header(headers[i].as_str()) {
            None => {
                if i >= row.len() {
                    Err(RecordError::UnexpectedEndOfRow)
                } else {
                    Ok(())
                }
            },
            Some(f) => {
                if has_field_exec(&p, f) {
                    Err(RecordError::DuplicateField(f))
                } else if i >= row.len() {
                    Err(RecordError::UnexpectedEndOfRow)
                } else {
                    assert(rv[i as int] == row@[i as int]@);
                    set_field_exec(&mut p, f, &row[i])
                }
            },
        };
        match step {
            Ok(()) => {},
            Err(e) => {
                proof {
                    lemma_keyed_error_stays(hv, rv, (i + 1) as nat, n as nat);
                }
                return Err(e);
            },
        }
    }
    finish_record(p)
}

fn decode_positional(row: &Vec<String>) -> (r: Result<RegisterConfig, RecordError>)
    ensures
        record_outcome(r, spec_decode_record(None, row.deep_view())),
{
    let ghost rv = row.deep_view();
    let n = row.len();
    if n < 1 {
        return Err(RecordError::InvalidLength(0));
    }
    if n < 2 {
        return Err(RecordError::InvalidLength(1));
    }
    if n < 3 {
        return Err(RecordError::InvalidLength(2));
    }
    assert(rv[2] == row@[2]@);
    let address = match parse_address(row[2].as_str()) {
        Some(a) => a,
        None => {
            return Err(RecordError::InvalidValue(RegisterField::Address));
        },
    };
    if n < 4 {
        return Err(RecordError::InvalidLength(3));
    }
    if n < 5 {
        return Err(RecordError::InvalidLength(4));
    }
    if n < 6 {
        return Err(RecordError::InvalidLength(5));
    }
    assert(rv[5] == row@[5]@);
    let enabled = match parse_bool(row[5].as_str()) {
        Some(b) => b,
        None => {
            return Err(RecordError::InvalidValue(RegisterField::Enabled));
        },
    };
    assert(rv[0] == row@[0]@);
    assert(rv[1] == row@[1]@);
    assert(rv[3] == row@[3]@);
    assert(rv[4] == row@[4]@);
    Ok(
        RegisterConfig {
            name: row[0].clone(),
            description: row[1].clone(),
            address,
            var_type: row[3].clone(),
            modbus_type: row[4].clone(),
            enabled,
        },
    )
}

/// The register that one record describes: read by header name when the
/// header row is known (unknown columns are skipped; a repeated, missing or
/// malformed field, or a record shorter than the headers, is an error), and
/// by position (`name`, `description`, `address`, `var_type`,
/// `modbus_type`, `enabled`) when it is not.
pub fn decode_record(headers: &Option<Vec<String>>, row: &Vec<String>) -> (r: Result<
    RegisterConfig,
    RecordError,
>)
    ensures
        record_outcome(r, spec_decode_record(headers.deep_view(), row.deep_view())),
{
    match headers {
        Some(h) => decode_keyed(h, row),
        None => decode_positional(row),
    }
}

// ---------------------------------------------------------------------------
// Tables
// ---------------------------------------------------------------------------

/// Why the register table could not be read.
#[derive(Debug)]
pub enum RegistersCsvError {
    /// Data record `row` (counting from 0 after the header) is not a register.
    Record { row: usize, error: RecordError },
    /// The CSV reader or writer failed.
    Csv(csv::Error),
}

/// The registers of the first `n` records, or the first record that is
/// not a register, with its index.
pub open spec fn decode_rows(
    headers: Option<Seq<Seq<char>>>,
    rows: Seq<Seq<Seq<char>>>,
    n: nat,
) -> Result<Seq<RegisterView>, (nat, RecordError)>
    decreases n,
{
    if n == 0 {
        Ok(Seq::empty())
    } else {
        match decode_rows(headers, rows, (n - 1) as nat) {
            Ok(regs) => match spec_decode_record(headers, rows[n - 1]) {
                Ok(r) => Ok(regs.push(r)),
                Err(e) => Err(((n - 1) as nat, e)),
            },
            Err(e) => Err(e),
        }
    }
}

/// Why a table is not a list of registers.
pub enum TableError {
    Record(nat, RecordError),
    Reader,
}

/// The registers that a read table holds: the records are decoded in order
/// and the first bad one is reported; when all records read are registers
/// but the reader stopped on an error, that error is reported.
pub open spec fn spec_decode_table(
    headers: Option<Seq<Seq<char>>>,
    rows: Seq<Seq<Seq<char>>>,
    failed: bool,
) -> Result<Seq<RegisterView>, TableError> {
    match decode_rows(headers, rows, rows.len()) {
        Err((i, e)) => Err(TableError::Record(i, e)),
        Ok(regs) => if failed {
            Err(TableError::Reader)
        } else {
            Ok(regs)
        },
    }
}

/// Whether `r` is the exec outcome that the spec outcome `s` describes.
pub open spec fn table_outcome(
    r: Result<Vec<RegisterConfig>, RegistersCsvError>,
    s: Result<Seq<RegisterView>, TableError>,
) -> bool {
    match s {
        Ok(regs) => r matches Ok(v) && registers_view(v@) == regs,
        Err(TableError::Record(i, e)) => r matches Err(RegistersCsvError::Record { row, error })
            && row == i && error == e,
        Err(TableError::Reader) => r matches Err(RegistersCsvError::Csv(_)),
    }
}

proof fn lemma_rows_error_stays(
    headers: Option<Seq<Seq<char>>>,
    rows: Seq<Seq<Seq<char>>>,
    i: nat,
    n: nat,
)
    requires
        i <= n,
        decode_rows(headers, rows, i) is Err,
    ensures
        decode_rows(headers, rows, n) == decode_rows(headers, rows, i),
    decreases n - i,
{
    if i < n {
        lemma_rows_error_stays(headers, rows, i, (n - 1) as nat);
    }
}

/// The registers held by a table that a CSV reader returned.
pub fn registers_from_table(table: CsvTable) -> (r: Result<Vec<RegisterConfig>, RegistersCsvError>)
    ensures
        table_outcome(
            r,
            spec_decode_table(table.headers_view(), table.rows_view(), table.error is Some),
        ),
{
    let ghost hv = table.headers_view();
    let ghost rows = table.rows_view();
    let n = table.rows.len();
    let mut regs: Vec<RegisterConfig> = Vec::new();
    assert(registers_view(regs@) =~= Seq::<RegisterView>::empty());
    for i in 0..n
        invariant
            n == table.rows@.len(),
            rows == table.rows_view(),
            hv == table.headers_view(),
            decode_rows(hv, rows, i as nat) == Ok::<Seq<RegisterView>, (nat, RecordError)>(
                registers_view(regs@),
            ),
    {
        assert(rows[i as int] == table.rows@[i as int].deep_view());
        match decode_record(&table.headers, &table.rows[i]) {
            Ok(reg) => {
                let ghost before = regs@;
                regs.push(reg);
                assert(registers_view(regs@) == registers_view(before).push(regs@.last()@));
            },
            Err(e) => {
                proof {
                    assert(spec_decode_record(hv, rows[i as int]) == Err::<RegisterView, RecordError>(e));
                    lemma_rows_error_stays(hv, rows, (i + 1) as nat, n as nat);
                }
                return Err(RegistersCsvError::Record { row: i, error: e });
            },
        }
    }
    match table.error {
        Some(e) => Err(RegistersCsvError::Csv(e)),
        None => Ok(regs),
    }
}

/// The registers of a register table given as bytes, read with csv's
/// reader; `csv_semicolon_table` names what the reader yields.
pub fn parse_registers_csv(bytes: &[u8]) -> (r: Result<Vec<RegisterConfig>, RegistersCsvError>)
    ensures
        ({
            let (h, rows, failed) = csv_semicolon_table(bytes@);
            table_outcome(r, spec_decode_table(h, rows, failed))
        }),
{
    let table = read_semicolon_table(bytes);
    registers_from_table(table)
}

/// The register configuration for registers read from the register table,
/// stamped with `last_updated`.
pub fn registers_config(registers: Vec<RegisterConfig>, last_updated: String) -> (r:
    RegistersConfig)
    ensures
        r.registers == registers,
        r.metadata.last_updated == last_updated,
        r.metadata.version@ == "csv-1.0"@,
        r.metadata.description@ == "Конфигурация регистров из CSV (tags.csv)"@,
{
    RegistersConfig {
        registers,
        metadata: Metadata {
            last_updated,
            version: String::from_str("csv-1.0"),
            description: String::from_str("Конфигурация регистров из CSV (tags.csv)"),
        },
    }
}

// ---------------------------------------------------------------------------
// Writing
// ---------------------------------------------------------------------------

/// The header record: the column names in declaration order.
pub open spec fn header_record() -> Seq<Seq<char>> {
    seq!["name"@, "description"@, "address"@, "var_type"@, "modbus_type"@, "enabled"@]
}

pub open spec fn bool_text(b: bool) -> Seq<char> {
    if b {
        "true"@
    } else {
        "false"@
    }
}

/// The record of one register: its fields in declaration order, the
/// address in decimal and `enabled` as `true`/`false`.
pub open spec fn register_record(r: RegisterView) -> Seq<Seq<char>> {
    seq![r.name, r.description, decimal(r.address as nat), r.var_type, r.modbus_type, bool_text(r.enabled)]
}

/// All records of the register table: the header, then one per register.
pub open spec fn spec_register_records(regs: Seq<RegisterView>) -> Seq<Seq<Seq<char>>> {
    seq![header_record()] + regs.map_values(|r: RegisterView| register_record(r))
}

fn header_strings() -> (v: Vec<String>)
    ensures
        v.deep_view() == header_record(),
{
    let mut v: Vec<String> = Vec::new();
    v.push(String::from_str("name"));
    v.push(String::from_str("description"));
    v.push(String::from_str("address"));
    v.push(String::from_str("var_type"));
    v.push(String::from_str("modbus_type"));
    v.push(String::from_str("enabled"));
    assert(v.deep_view() =~= header_record());
    v
}

fn register_strings(r: &RegisterConfig) -> (v: Vec<String>)
    ensures
        v.deep_view() == register_record(r@),
{
    let mut v: Vec<String> = Vec::new();
    v.push(r.name.clone());
    v.push(r.description.clone());
    let mut address = String::new();
    push_decimal(&mut address, r.address as u64);
    assert(Seq::<char>::empty() + decimal(r.address as nat) == decimal(r.address as nat));
    v.push(address);
    v.push(r.var_type.clone());
    v.push(r.modbus_type.clone());
    if r.enabled {
        v.push(String::from_str("true"));
    } else {
        v.push(String::from_str("false"));
    }
    assert(v.deep_view() =~= register_record(r@));
    v
}

/// The records written to the register table for `regs`.
pub fn register_records(regs: &[RegisterConfig]) -> (v: Vec<Vec<String>>)
    ensures
        v.deep_view() == spec_register_records(registers_view(regs@)),
{
    let mut v: Vec<Vec<String>> = Vec::new();
    v.push(header_strings());
    let n = regs.len();
    for i in 0..n
        invariant
            n == regs@.len(),
            v.deep_view() == spec_register_records(registers_view(regs@.take(i as int))),
    {
        let ghost before = v.deep_view();
        v.push(register_strings(&regs[i]));
        proof {
            let t = regs@.take(i + 1);
            assert(t == regs@.take(i as int).push(regs@[i as int]));
            assert(registers_view(t) =~= registers_view(regs@.take(i as int)).push(regs@[i as int]@));
            assert(v.deep_view() =~= before.push(register_record(regs@[i as int]@)));
            assert(spec_register_records(registers_view(t)) =~= spec_register_records(
                registers_view(regs@.take(i as int)),
            ).push(register_record(regs@[i as int]@)));
        }
    }
    assert(regs@.take(n as int) == regs@);
    v
}

/// The bytes of the register table for `regs`, as csv's writer produces
/// them from `register_records`. Every record has six fields, so writing
/// always succeeds, and reading the bytes back gives the same registers.
pub fn encode_registers_csv(regs: &[RegisterConfig]) -> (r: Result<Vec<u8>, RegistersCsvError>)
    ensures
        r is Ok,
        r matches Ok(b) ==> b@ == csv_semicolon_bytes(spec_register_records(registers_view(regs@))),
        r matches Ok(b) ==> ({
            let (h, rows, failed) = csv_semicolon_table(b@);
            spec_decode_table(h, rows, failed) == Ok::<Seq<RegisterView>, TableError>(
                registers_view(regs@),
            )
        }),
{
    let records = register_records(regs);
    proof {
        let recs = records.deep_view();
        assert forall|i: int| 0 <= i < recs.len() implies #[trigger] recs[i].len() == recs[0].len() by {
            assert(recs[0].len() == 6);
            if i > 0 {
                assert(recs[i] == register_record(registers_view(regs@)[i - 1]));
            }
        }
        reveal_strlit("name");
        assert(recs[0][0] == "name"@);
        assert(recs[0][0][0] == 'n');
        law_registers_round_trip(registers_view(regs@));
    }
    match write_semicolon_records(&records) {
        Ok(b) => Ok(b),
        Err(e) => Err(RegistersCsvError::Csv(e)),
    }
}

// ---------------------------------------------------------------------------
// Laws
// ---------------------------------------------------------------------------

/// Each column name selects its own field.
pub proof fn lemma_field_names(f: RegisterField)
    ensures
        spec_field_of_header(spec_field_name(f)) == Some(f),
{
    reveal_strlit("name");
    reveal_strlit("description");
    reveal_strlit("address");
    reveal_strlit("var_type");
    reveal_strlit("modbus_type");
    reveal_strlit("enabled");
    assert("name"@.len() == 4);
    assert("description"@.len() == 11);
    assert("address"@.len() == 7);
    assert("var_type"@.len() == 8);
    assert("modbus_type"@.len() == 11);
    assert("enabled"@.len() == 7);
    assert("description"@[0] != "modbus_type"@[0]);
    assert("address"@[0] != "enabled"@[0]);
    match f {
        RegisterField::Name => {},
        RegisterField::Description => {
            assert("description"@ != "name"@);
        },
        RegisterField::Address => {
            assert("address"@ != "name"@);
            assert("address"@ != "description"@);
        },
        RegisterField::VarType => {
            assert("var_type"@ != "name"@);
            assert("var_type"@ != "description"@);
            assert("var_type"@ != "address"@);
        },
        RegisterField::ModbusType => {
            assert("modbus_type"@ != "name"@);
            assert("modbus_type"@ != "description"@);
            assert("modbus_type"@ != "address"@);
            assert("modbus_type"@ != "var_type"@);
        },
        RegisterField::Enabled => {
            assert("enabled"@ != "name"@);
            assert("enabled"@ != "description"@);
            assert("enabled"@ != "address"@);
            assert("enabled"@ != "var_type"@);
            assert("enabled"@ != "modbus_type"@);
        },
    }
}

proof fn lemma_address_text_round_trip(a: u16)
    ensures
        spec_parse_address(decimal(a as nat)) == Some(a),
{
    lemma_decimal_digits(a as nat);
    let d = decimal(a as nat);
    if d.len() >= 2 {
        assert(digit_value(d[1], 10) is Some);
        assert(digit_value('x', 10) is None);
    }
    crate::text::law_parse_decimal_round_trip(a as nat, 65535);
}

proof fn lemma_bool_text_round_trip(b: bool)
    ensures
        spec_parse_bool(bool_text(b)) == Some(b),
{
    reveal_strlit("true");
    reveal_strlit("false");
    assert("true"@.len() != "false"@.len());
}

/// The record written for a register, read under the written header,
/// describes that register again.
pub proof fn law_record_round_trip(r: RegisterView)
    ensures
        spec_decode_record(Some(header_record()), register_record(r)) == Ok::<RegisterView, RecordError>(r),
{
    let h = header_record();
    let row = register_record(r);
    lemma_field_names(RegisterField::Name);
    lemma_field_names(RegisterField::Description);
    lemma_field_names(RegisterField::Address);
    lemma_field_names(RegisterField::VarType);
    lemma_field_names(RegisterField::ModbusType);
    lemma_field_names(RegisterField::Enabled);
    lemma_address_text_round_trip(r.address);
    lemma_bool_text_round_trip(r.enabled);
    assert(h[0] == spec_field_name(RegisterField::Name));
    assert(h[1] == spec_field_name(RegisterField::Description));
    assert(h[2] == spec_field_name(RegisterField::Address));
    assert(h[3] == spec_field_name(RegisterField::VarType));
    assert(h[4] == spec_field_name(RegisterField::ModbusType));
    assert(h[5] == spec_field_name(RegisterField::Enabled));
    let p0 = empty_partial();
    let p1 = PartialRegister { name: Some(r.name), ..p0 };
    let p2 = PartialRegister { description: Some(r.description), ..p1 };
    let p3 = PartialRegister { address: Some(r.address), ..p2 };
    let p4 = PartialRegister { var_type: Some(r.var_type), ..p3 };
    let p5 = PartialRegister { modbus_type: Some(r.modbus_type), ..p4 };
    let p6 = PartialRegister { enabled: Some(r.enabled), ..p5 };
    assert(keyed_partial(h, row, 0) == Ok::<PartialRegister, RecordError>(p0));
    assert(keyed_partial(h, row, 1) == Ok::<PartialRegister, RecordError>(p1));
    assert(keyed_partial(h, row, 2) == Ok::<PartialRegister, RecordError>(p2));
    assert(keyed_partial(h, row, 3) == Ok::<PartialRegister, RecordError>(p3));
    assert(keyed_partial(h, row, 4) == Ok::<PartialRegister, RecordError>(p4));
    assert(keyed_partial(h, row, 5) == Ok::<PartialRegister, RecordError>(p5));
    assert(keyed_partial(h, row, 6) == Ok::<PartialRegister, RecordError>(p6));
}

/// Registers written to the register table are read back unchanged: decoding
/// the data records under the header record gives the same registers, in
/// the same order.
pub proof fn law_registers_round_trip(regs: Seq<RegisterView>)
    ensures
        ({
            let recs = spec_register_records(regs);
            spec_decode_table(Some(recs[0]), recs.skip(1), false) == Ok::<Seq<RegisterView>, TableError>(regs)
        }),
{
    let recs = spec_register_records(regs);
    let h = Some(header_record());
    let rows = regs.map_values(|r: RegisterView| register_record(r));
    assert(recs[0] == header_record());
    assert(recs.skip(1) =~= rows);
    assert forall|k: nat| k <= regs.len() implies decode_rows(h, rows, k) == Ok::<Seq<RegisterView>, (nat, RecordError)>(regs.take(k as int)) by {
        lemma_decode_written_rows(regs, k);
    }
    assert(regs.take(regs.len() as int) == regs);
}

proof fn lemma_decode_written_rows(regs: Seq<RegisterView>, k: nat)
    requires
        k <= regs.len(),
    ensures
        decode_rows(Some(header_record()), regs.map_values(|r: RegisterView| register_record(r)), k)
            == Ok::<Seq<RegisterView>, (nat, RecordError)>(regs.take(k as int)),
    decreases k,
{
    let rows = regs.map_values(|r: RegisterView| register_record(r));
    if k == 0 {
        assert(regs.take(0) =~= Seq::<RegisterView>::empty());
    } else {
        lemma_decode_written_rows(regs, (k - 1) as nat);
        law_record_round_trip(regs[k - 1]);
        assert(rows[k - 1] == register_record(regs[k - 1]));
        assert(regs.take(k as int) =~= regs.take(k - 1).push(regs[k - 1]));
    }
}

} // verus!
