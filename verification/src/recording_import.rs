//! Recordings read back: the stable table of columns, and the checks that a
//! table passes before its rows are shown.
use vstd::prelude::*;
use vstd::string::*;

use crate::measurement::MeasurementSample;
use crate::recording::{origin_at, rows_of, RecordingOffsets, RecordingRow};
use crate::recording_session::first_error;
use crate::text::{append_decimal, decimal, texts};

verus! {

/// The columns of a recording, in the order of the file.
pub fn recording_columns() -> (names: [&'static str; 23])
    ensures
        crate::text::slice_texts(names@) == column_names(),
{
    let names = [
        "elapsed_us",
        "sample_index",
        "sequence",
        "marker",
        "sample_rate_hz",
        "missing_samples",
        "gap_duration_us",
        "interpolated",
        "cumulative_missing_samples",
        "cumulative_interpolated_duration_us",
        "discarded_sequence_samples",
        "cumulative_discarded_sequence_samples",
        "vbus_uv",
        "ibus_ua",
        "power_uw",
        "charge_uah",
        "energy_uwh",
        "charge_throughput_uah",
        "energy_throughput_uwh",
        "cc1_uv",
        "cc2_uv",
        "dp_uv",
        "dm_uv",
    ];
    assert(crate::text::slice_texts(names@) =~= column_names());
    names
}

/// The names of the columns of a recording, in the order of the file.
pub open spec fn column_names() -> Seq<Seq<char>> {
    seq![
        "elapsed_us"@,
        "sample_index"@,
        "sequence"@,
        "marker"@,
        "sample_rate_hz"@,
        "missing_samples"@,
        "gap_duration_us"@,
        "interpolated"@,
        "cumulative_missing_samples"@,
        "cumulative_interpolated_duration_us"@,
        "discarded_sequence_samples"@,
        "cumulative_discarded_sequence_samples"@,
        "vbus_uv"@,
        "ibus_ua"@,
        "power_uw"@,
        "charge_uah"@,
        "energy_uwh"@,
        "charge_throughput_uah"@,
        "energy_throughput_uwh"@,
        "cc1_uv"@,
        "cc2_uv"@,
        "dp_uv"@,
        "dm_uv"@,
    ]
}

/// A recording as columns. A column that a source does not have is empty cell
/// by cell.
#[derive(Debug)]
pub struct RecordingTable {
    pub elapsed_us: Vec<u64>,
    pub sample_index: Vec<u64>,
    pub sequence: Vec<Option<u32>>,
    pub marker: Vec<Option<u32>>,
    pub sample_rate_hz: Vec<Option<u32>>,
    pub missing_samples: Vec<Option<u32>>,
    pub gap_duration_us: Vec<Option<u64>>,
    pub interpolated: Vec<Option<bool>>,
    pub cumulative_missing_samples: Vec<Option<u64>>,
    pub cumulative_interpolated_duration_us: Vec<Option<u64>>,
    pub discarded_sequence_samples: Vec<Option<u32>>,
    pub cumulative_discarded_sequence_samples: Vec<Option<u64>>,
    pub vbus_uv: Vec<i64>,
    pub ibus_ua: Vec<i64>,
    pub power_uw: Vec<i64>,
    pub charge: Vec<i128>,
    pub energy: Vec<i128>,
    pub charge_throughput: Vec<i128>,
    pub energy_throughput: Vec<i128>,
    pub cc1_uv: Vec<Option<i64>>,
    pub cc2_uv: Vec<Option<i64>>,
    pub dp_uv: Vec<Option<i64>>,
    pub dm_uv: Vec<Option<i64>>,
}

/// Whether every column of `table` holds `rows` cells.
pub open spec fn has_rows(table: RecordingTable, rows: nat) -> bool {
    &&& table.elapsed_us.len() == rows
    &&& table.sample_index.len() == rows
    &&& table.sequence.len() == rows
    &&& table.marker.len() == rows
    &&& table.sample_rate_hz.len() == rows
    &&& table.missing_samples.len() == rows
    &&& table.gap_duration_us.len() == rows
    &&& table.interpolated.len() == rows
    &&& table.cumulative_missing_samples.len() == rows
    &&& table.cumulative_interpolated_duration_us.len() == rows
    &&& table.discarded_sequence_samples.len() == rows
    &&& table.cumulative_discarded_sequence_samples.len() == rows
    &&& table.vbus_uv.len() == rows
    &&& table.ibus_ua.len() == rows
    &&& table.power_uw.len() == rows
    &&& table.charge.len() == rows
    &&& table.energy.len() == rows
    &&& table.charge_throughput.len() == rows
    &&& table.energy_throughput.len() == rows
    &&& table.cc1_uv.len() == rows
    &&& table.cc2_uv.len() == rows
    &&& table.dp_uv.len() == rows
    &&& table.dm_uv.len() == rows
}

/// Whether row `i` of `table` is `row`.
pub open spec fn holds_row(table: RecordingTable, i: int, row: RecordingRow) -> bool {
    &&& table.elapsed_us@[i] == row.elapsed_us
    &&& table.sample_index@[i] == row.sample_index
    &&& table.sequence@[i] == Some(row.sequence)
    &&& table.marker@[i] == Some(row.marker)
    &&& table.sample_rate_hz@[i] == Some(row.sample_rate_hz)
    &&& table.missing_samples@[i] == Some(row.missing_samples)
    &&& table.gap_duration_us@[i] == Some(row.gap_duration_us)
    &&& table.interpolated@[i] == Some(row.interpolated)
    &&& table.cumulative_missing_samples@[i] == Some(row.cumulative_missing_samples)
    &&& table.cumulative_interpolated_duration_us@[i] == Some(row.cumulative_interpolated_duration_us)
    &&& table.discarded_sequence_samples@[i] == Some(row.discarded_sequence_samples)
    &&& table.cumulative_discarded_sequence_samples@[i] == Some(row.cumulative_discarded_sequence_samples)
    &&& table.vbus_uv@[i] == row.vbus_uv
    &&& table.ibus_ua@[i] == row.ibus_ua
    &&& table.power_uw@[i] == row.power_uw
    &&& table.charge@[i] == row.charge
    &&& table.energy@[i] == row.energy
    &&& table.charge_throughput@[i] == row.charge_throughput
    &&& table.energy_throughput@[i] == row.energy_throughput
    &&& table.cc1_uv@[i] == Some(row.cc1_uv)
    &&& table.cc2_uv@[i] == Some(row.cc2_uv)
    &&& table.dp_uv@[i] == Some(row.dp_uv)
    &&& table.dm_uv@[i] == Some(row.dm_uv)
}

/// Whether row `i` of `table` is the offline sample `sample`: what the device
/// does not log is empty.
pub open spec fn holds_offline(table: RecordingTable, i: int, sample: MeasurementSample) -> bool {
    &&& table.elapsed_us@[i] == sample.elapsed_us
    &&& table.sample_index@[i] == sample.sample_index
    &&& table.sequence@[i] == None::<u32>
    &&& table.marker@[i] == None::<u32>
    &&& table.sample_rate_hz@[i] == None::<u32>
    &&& table.missing_samples@[i] == None::<u32>
    &&& table.gap_duration_us@[i] == None::<u64>
    &&& table.interpolated@[i] == None::<bool>
    &&& table.cumulative_missing_samples@[i] == None::<u64>
    &&& table.cumulative_interpolated_duration_us@[i] == None::<u64>
    &&& table.discarded_sequence_samples@[i] == None::<u32>
    &&& table.cumulative_discarded_sequence_samples@[i] == None::<u64>
    &&& table.vbus_uv@[i] == sample.vbus_uv
    &&& table.ibus_ua@[i] == sample.ibus_ua
    &&& table.power_uw@[i] == sample.power_uw
    &&& table.charge@[i] == sample.charge
    &&& table.energy@[i] == sample.energy
    &&& table.charge_throughput@[i] == sample.charge_throughput
    &&& table.energy_throughput@[i] == sample.energy_throughput
    &&& table.cc1_uv@[i] == None::<i64>
    &&& table.cc2_uv@[i] == None::<i64>
    &&& table.dp_uv@[i] == None::<i64>
    &&& table.dm_uv@[i] == None::<i64>
}

/// A table without rows.
fn empty_table() -> (table: RecordingTable)
    ensures
        has_rows(table, 0),
{
    RecordingTable {
        elapsed_us: Vec::new(),
        sample_index: Vec::new(),
        sequence: Vec::new(),
        marker: Vec::new(),
        sample_rate_hz: Vec::new(),
        missing_samples: Vec::new(),
        gap_duration_us: Vec::new(),
        interpolated: Vec::new(),
        cumulative_missing_samples: Vec::new(),
        cumulative_interpolated_duration_us: Vec::new(),
        discarded_sequence_samples: Vec::new(),
        cumulative_discarded_sequence_samples: Vec::new(),
        vbus_uv: Vec::new(),
        ibus_ua: Vec::new(),
        power_uw: Vec::new(),
        charge: Vec::new(),
        energy: Vec::new(),
        charge_throughput: Vec::new(),
        energy_throughput: Vec::new(),
        cc1_uv: Vec::new(),
        cc2_uv: Vec::new(),
        dp_uv: Vec::new(),
        dm_uv: Vec::new(),
    }
}

/// The rows of a recording as columns.
pub fn rows_to_table(rows: &Vec<RecordingRow>) -> (table: RecordingTable)
    ensures
        has_rows(table, rows.len() as nat),
        forall|i: int| 0 <= i < rows.len() ==> holds_row(table, i, #[trigger] rows@[i]),
{
    let mut table = empty_table();
    let mut i: usize = 0;
    while i < rows.len()
        invariant
            i <= rows.len(),
            has_rows(table, i as nat),
            forall|k: int| 0 <= k < i ==> holds_row(table, k, #[trigger] rows@[k]),
        decreases rows.len() - i,
    {
        let row = rows[i];
        table.elapsed_us.push(row.elapsed_us);
        table.sample_index.push(row.sample_index);
        table.sequence.push(Some(row.sequence));
        table.marker.push(Some(row.marker));
        table.sample_rate_hz.push(Some(row.sample_rate_hz));
        table.missing_samples.push(Some(row.missing_samples));
        table.gap_duration_us.push(Some(row.gap_duration_us));
        table.interpolated.push(Some(row.interpolated));
        table.cumulative_missing_samples.push(Some(row.cumulative_missing_samples));
        table.cumulative_interpolated_duration_us.push(Some(row.cumulative_interpolated_duration_us));
        table.discarded_sequence_samples.push(Some(row.discarded_sequence_samples));
        table.cumulative_discarded_sequence_samples.push(Some(row.cumulative_discarded_sequence_samples));
        table.vbus_uv.push(row.vbus_uv);
        table.ibus_ua.push(row.ibus_ua);
        table.power_uw.push(row.power_uw);
        table.charge.push(row.charge);
        table.energy.push(row.energy);
        table.charge_throughput.push(row.charge_throughput);
        table.energy_throughput.push(row.energy_throughput);
        table.cc1_uv.push(Some(row.cc1_uv));
        table.cc2_uv.push(Some(row.cc2_uv));
        table.dp_uv.push(Some(row.dp_uv));
        table.dm_uv.push(Some(row.dm_uv));
        i += 1;
    }
    table
}

/// The samples of an offline log as columns: what the device does not log is
/// empty.
pub fn offline_to_table(samples: &Vec<MeasurementSample>) -> (table: RecordingTable)
    ensures
        has_rows(table, samples.len() as nat),
        forall|i: int| 0 <= i < samples.len() ==> holds_offline(table, i, #[trigger] samples@[i]),
{
    let mut table = empty_table();
    let mut i: usize = 0;
    while i < samples.len()
        invariant
            i <= samples.len(),
            has_rows(table, i as nat),
            forall|k: int| 0 <= k < i ==> holds_offline(table, k, #[trigger] samples@[k]),
        decreases samples.len() - i,
    {
        let sample = samples[i];
        table.elapsed_us.push(sample.elapsed_us);
        table.sample_index.push(sample.sample_index);
        table.sequence.push(None);
        table.marker.push(None);
        table.sample_rate_hz.push(None);
        table.missing_samples.push(None);
        table.gap_duration_us.push(None);
        table.interpolated.push(None);
        table.cumulative_missing_samples.push(None);
        table.cumulative_interpolated_duration_us.push(None);
        table.discarded_sequence_samples.push(None);
        table.cumulative_discarded_sequence_samples.push(None);
        table.vbus_uv.push(sample.vbus_uv);
        table.ibus_ua.push(sample.ibus_ua);
        table.power_uw.push(sample.power_uw);
        table.charge.push(sample.charge);
        table.energy.push(sample.energy);
        table.charge_throughput.push(sample.charge_throughput);
        table.energy_throughput.push(sample.energy_throughput);
        table.cc1_uv.push(None);
        table.cc2_uv.push(None);
        table.dp_uv.push(None);
        table.dm_uv.push(None);
        i += 1;
    }
    table
}

/// What could be read of a file: the names of its columns, its number of rows,
/// and each column's cells, or why the column could not be read.
#[derive(Debug)]
pub struct ImportedColumns {
    pub names: Vec<String>,
    pub height: usize,
    pub elapsed_us: Result<Vec<Option<u64>>, String>,
    pub sample_index: Result<Vec<Option<u64>>, String>,
    pub sequence: Result<Vec<Option<u32>>, String>,
    pub marker: Result<Vec<Option<u32>>, String>,
    pub sample_rate_hz: Result<Vec<Option<u32>>, String>,
    pub missing_samples: Result<Vec<Option<u32>>, String>,
    pub gap_duration_us: Result<Vec<Option<u64>>, String>,
    pub interpolated: Result<Vec<Option<bool>>, String>,
    pub cumulative_missing_samples: Result<Vec<Option<u64>>, String>,
    pub cumulative_interpolated_duration_us: Result<Vec<Option<u64>>, String>,
    pub discarded_sequence_samples: Result<Vec<Option<u32>>, String>,
    pub cumulative_discarded_sequence_samples: Result<Vec<Option<u64>>, String>,
    pub vbus_uv: Result<Vec<Option<i64>>, String>,
    pub ibus_ua: Result<Vec<Option<i64>>, String>,
    pub power_uw: Result<Vec<Option<i64>>, String>,
    pub charge: Result<Vec<Option<i128>>, String>,
    pub energy: Result<Vec<Option<i128>>, String>,
    pub charge_throughput: Result<Vec<Option<i128>>, String>,
    pub energy_throughput: Result<Vec<Option<i128>>, String>,
    pub cc1_uv: Result<Vec<Option<i64>>, String>,
    pub cc2_uv: Result<Vec<Option<i64>>, String>,
    pub dp_uv: Result<Vec<Option<i64>>, String>,
    pub dm_uv: Result<Vec<Option<i64>>, String>,
}

/// Whether a column that could be read holds `height` cells.
pub open spec fn column_fits<T>(column: Result<Vec<Option<T>>, String>, height: usize) -> bool {
    column matches Ok(cells) ==> cells.len() == height
}

/// The first empty cell of `cells`, or their number where none is empty.
pub open spec fn first_empty<T>(cells: Seq<Option<T>>) -> int
    decreases cells.len(),
{
    if cells.len() == 0 {
        0
    } else if cells[0] is None {
        0
    } else {
        1 + first_empty(cells.drop_first())
    }
}

/// Why a column that must be full cannot be used, if it cannot.
pub open spec fn required_error<T>(
    name: Seq<char>,
    column: Result<Vec<Option<T>>, String>,
) -> Option<Seq<char>> {
    match column {
        Err(error) => Some(error@),
        Ok(cells) => if first_empty(cells@) < cells.len() {
            Some(
                "字段 "@ + name + " 第 "@ + decimal((first_empty(cells@) + 2) as nat) + " 行为空"@,
            )
        } else {
            None
        },
    }
}

/// Why a column that may have empty cells cannot be used, if it cannot.
pub open spec fn optional_error<T>(column: Result<Vec<Option<T>>, String>) -> Option<Seq<char>> {
    match column {
        Err(error) => Some(error@),
        Ok(_) => None,
    }
}

/// The cell of a column that can be used; `default` where it is empty.
pub open spec fn cell<T>(column: Result<Vec<Option<T>>, String>, row: int, default: T) -> T {
    match column {
        Ok(cells) => match cells@[row] {
            Some(value) => value,
            None => default,
        },
        Err(_) => default,
    }
}

/// `value`, kept inside 16 bits.
pub open spec fn in_u16(value: u32) -> u16 {
    if value > 65535 {
        65535
    } else {
        value as u16
    }
}

impl ImportedColumns {
    /// Every column that could be read holds as many cells as there are rows.
    pub open spec fn well_formed(self) -> bool {
        &&& self.height < u64::MAX - 2
        &&& column_fits(self.elapsed_us, self.height)
        &&& column_fits(self.sample_index, self.height)
        &&& column_fits(self.sequence, self.height)
        &&& column_fits(self.marker, self.height)
        &&& column_fits(self.sample_rate_hz, self.height)
        &&& column_fits(self.missing_samples, self.height)
        &&& column_fits(self.gap_duration_us, self.height)
        &&& column_fits(self.interpolated, self.height)
        &&& column_fits(self.cumulative_missing_samples, self.height)
        &&& column_fits(self.cumulative_interpolated_duration_us, self.height)
        &&& column_fits(self.discarded_sequence_samples, self.height)
        &&& column_fits(self.cumulative_discarded_sequence_samples, self.height)
        &&& column_fits(self.vbus_uv, self.height)
        &&& column_fits(self.ibus_ua, self.height)
        &&& column_fits(self.power_uw, self.height)
        &&& column_fits(self.charge, self.height)
        &&& column_fits(self.energy, self.height)
        &&& column_fits(self.charge_throughput, self.height)
        &&& column_fits(self.energy_throughput, self.height)
        &&& column_fits(self.cc1_uv, self.height)
        &&& column_fits(self.cc2_uv, self.height)
        &&& column_fits(self.dp_uv, self.height)
        &&& column_fits(self.dm_uv, self.height)
    }

    /// Why a column cannot be used, if one cannot.
    pub open spec fn column_error(self) -> Option<Seq<char>> {
        first_error(
            seq![
                required_error("elapsed_us"@, self.elapsed_us),
                required_error("sample_index"@, self.sample_index),
                optional_error(self.sequence),
                optional_error(self.marker),
                optional_error(self.sample_rate_hz),
                optional_error(self.missing_samples),
                optional_error(self.gap_duration_us),
                optional_error(self.interpolated),
                optional_error(self.cumulative_missing_samples),
                optional_error(self.cumulative_interpolated_duration_us),
                optional_error(self.discarded_sequence_samples),
                optional_error(self.cumulative_discarded_sequence_samples),
                required_error("vbus_uv"@, self.vbus_uv),
                required_error("ibus_ua"@, self.ibus_ua),
                required_error("power_uw"@, self.power_uw),
                required_error("charge_uah"@, self.charge),
                required_error("energy_uwh"@, self.energy),
                required_error("charge_throughput_uah"@, self.charge_throughput),
                required_error("energy_throughput_uwh"@, self.energy_throughput),
                optional_error(self.cc1_uv),
                optional_error(self.cc2_uv),
                optional_error(self.dp_uv),
                optional_error(self.dm_uv),
            ],
        )
    }

    /// The sample in row `row`.
    pub open spec fn sample(self, row: int) -> MeasurementSample {
        MeasurementSample {
            elapsed_us: cell(self.elapsed_us, row, 0),
            sample_index: cell(self.sample_index, row, 0),
            sequence: in_u16(cell(self.sequence, row, 0)),
            marker: in_u16(cell(self.marker, row, 0)),
            sample_rate_hz: in_u16(cell(self.sample_rate_hz, row, 0)),
            missing_samples: in_u16(cell(self.missing_samples, row, 0)),
            gap_duration_us: cell(self.gap_duration_us, row, 0),
            interpolated: cell(self.interpolated, row, false),
            cumulative_missing_samples: cell(self.cumulative_missing_samples, row, 0),
            cumulative_interpolated_duration_us: cell(self.cumulative_interpolated_duration_us, row, 0),
            discarded_sequence_samples: cell(self.discarded_sequence_samples, row, 0),
            cumulative_discarded_sequence_samples: cell(self.cumulative_discarded_sequence_samples, row, 0),
            vbus_uv: cell(self.vbus_uv, row, 0),
            ibus_ua: cell(self.ibus_ua, row, 0),
            power_uw: cell(self.power_uw, row, 0),
            charge: cell(self.charge, row, 0),
            energy: cell(self.energy, row, 0),
            charge_throughput: cell(self.charge_throughput, row, 0),
            energy_throughput: cell(self.energy_throughput, row, 0),
            cc1_uv: cell(self.cc1_uv, row, 0),
            cc2_uv: cell(self.cc2_uv, row, 0),
            dp_uv: cell(self.dp_uv, row, 0),
            dm_uv: cell(self.dm_uv, row, 0),
        }
    }

    /// Whether the table lists the column `name`.
    pub open spec fn lists(self, name: Seq<char>) -> bool {
        texts(self.names@).contains(name)
    }

    /// The first column of a recording that the table does not list, from
    /// position `from` on; the number of columns where it lists them all.
    pub open spec fn first_missing(self, from: int) -> int
        decreases 23 - from,
    {
        if from >= 23 || !self.lists(column_names()[from]) {
            from
        } else {
            self.first_missing(from + 1)
        }
    }

    /// The first row whose time is before that of the row above it, from `from`
    /// on; the number of rows where time never goes back.
    pub open spec fn first_disorder(self, from: int) -> int
        decreases self.height - from,
    {
        if from >= self.height || (from > 0 && self.sample(from).elapsed_us < self.sample(
            from - 1,
        ).elapsed_us) {
            from
        } else {
            self.first_disorder(from + 1)
        }
    }

    /// Why the table is no recording, if it is none.
    pub open spec fn error(self) -> Option<Seq<char>> {
        if self.names.len() != 23 {
            Some(
                "列数不匹配：需要 KM003C 的 23 列，文件中有 "@ + decimal(self.names.len() as nat)
                    + " 列"@,
            )
        } else if self.first_missing(0) < 23 {
            Some("缺少 KM003C 字段："@ + column_names()[self.first_missing(0)])
        } else if self.height == 0 {
            Some("录制文件没有采样点"@)
        } else if self.column_error() is Some {
            self.column_error()
        } else if self.first_disorder(0) < self.height {
            Some(
                "时间字段乱序：第 "@ + decimal((self.first_disorder(0) + 2) as nat)
                    + " 行的 elapsed_us 小于前一行"@,
            )
        } else {
            None
        }
    }
}

/// The cells of a column that must be full.
fn required<T: Copy>(name: &str, column: &Result<Vec<Option<T>>, String>, default: T) -> (cells:
    Result<Vec<T>, String>)
    requires
        column matches Ok(cells) ==> cells.len() < u64::MAX - 2,
    ensures
        match cells {
            Ok(values) => {
                &&& required_error(name@, *column) is None
                &&& column matches Ok(cells)
                &&& values.len() == cells.len()
                &&& forall|i: int|
                    0 <= i < values.len() ==> #[trigger] values@[i] == cell(*column, i, default)
            },
            Err(error) => required_error(name@, *column) == Some(error@),
        },
{
    match column {
        Err(error) => Err(error.clone()),
        Ok(cells) => {
            let mut values: Vec<T> = Vec::new();
            let mut row: usize = 0;
            assert(cells@.skip(0) =~= cells@);
            while row < cells.len()
                invariant
                    *column == Ok::<Vec<Option<T>>, String>(*cells),
                    cells.len() < u64::MAX - 2,
                    row <= cells.len(),
                    values.len() == row,
                    first_empty(cells@) == row + first_empty(cells@.skip(row as int)),
                    forall|i: int|
                        0 <= i < row ==> #[trigger] values@[i] == cell(*column, i, default),
                decreases cells.len() - row,
            {
                assert(cells@.skip(row as int).drop_first() =~= cells@.skip(row + 1));
                match cells[row] {
                    Some(value) => {
                        values.push(value);
                    },
                    None => {
                        let mut error = "字段 ".to_owned();
                        error.append(name);
                        error.append(" 第 ");
                        append_decimal(&mut error, row as u128 + 2);
                        error.append(" 行为空");
                        return Err(error);
                    },
                }
                row += 1;
            }
            Ok(values)
        },
    }
}

/// The cells of a column that may have empty ones.
fn optional<T: Copy>(column: &Result<Vec<Option<T>>, String>, default: T) -> (cells: Result<
    Vec<T>,
    String,
>)
    ensures
        match cells {
            Ok(values) => {
                &&& optional_error(*column) is None
                &&& column matches Ok(cells)
                &&& values.len() == cells.len()
                &&& forall|i: int|
                    0 <= i < values.len() ==> #[trigger] values@[i] == cell(*column, i, default)
            },
            Err(error) => optional_error(*column) == Some(error@),
        },
{
    match column {
        Err(error) => Err(error.clone()),
        Ok(cells) => {
            let mut values: Vec<T> = Vec::new();
            let mut row: usize = 0;
            while row < cells.len()
                invariant
                    *column == Ok::<Vec<Option<T>>, String>(*cells),
                    row <= cells.len(),
                    values.len() == row,
                    forall|i: int|
                        0 <= i < row ==> #[trigger] values@[i] == cell(*column, i, default),
                decreases cells.len() - row,
            {
                match cells[row] {
                    Some(value) => {
                        values.push(value);
                    },
                    None => {
                        values.push(default);
                    },
                }
                row += 1;
            }
            Ok(values)
        },
    }
}

/// Whether `names` holds `name`.
fn lists_name(names: &Vec<String>, name: &'static str) -> (found: bool)
    ensures
        found == texts(names@).contains(name@),
{
    let wanted = name.to_owned();
    let mut i: usize = 0;
    while i < names.len()
        invariant
            i <= names.len(),
            wanted@ == name@,
            forall|k: int| 0 <= k < i ==> texts(names@)[k] != name@,
        decreases names.len() - i,
    {
        if names[i] == wanted {
            assert(texts(names@)[i as int] == name@);
            return true;
        }
        assert(texts(names@)[i as int] != name@);
        i += 1;
    }
    false
}

/// `value`, kept inside 16 bits.
fn clip_u16(value: u32) -> (clipped: u16)
    ensures
        clipped == in_u16(value),
{
    if value > 65535 {
        65535
    } else {
        value as u16
    }
}

/// The samples of a table, or why it is no recording.
pub fn columns_to_recording(columns: &ImportedColumns) -> (samples: Result<
    Vec<MeasurementSample>,
    String,
>)
    requires
        columns.well_formed(),
    ensures
        match samples {
            Ok(samples) => {
                &&& columns.error() is None
                &&& samples.len() == columns.height
                &&& forall|i: int|
                    0 <= i < samples.len() ==> #[trigger] samples@[i] == columns.sample(i)
                &&& forall|i: int, j: int|
                    0 <= i <= j < samples.len() ==> samples@[i].elapsed_us
                        <= samples@[j].elapsed_us
            },
            Err(error) => columns.error() == Some(error@),
        },
{
    if columns.names.len() != 23 {
        let mut error = "列数不匹配：需要 KM003C 的 23 列，文件中有 ".to_owned();
        append_decimal(&mut error, columns.names.len() as u128);
        error.append(" 列");
        return Err(error);
    }
    let names = recording_columns();
    let mut next: usize = 0;
    while next < 23
        invariant
            next <= 23,
            columns.names.len() == 23,
            crate::text::slice_texts(names@) == column_names(),
            columns.first_missing(0) == columns.first_missing(next as int),
        decreases 23 - next,
    {
        let name = names[next];
        assert(name@ == crate::text::slice_texts(names@)[next as int]);
        if !lists_name(&columns.names, name) {
            let mut error = "缺少 KM003C 字段：".to_owned();
            error.append(name);
            return Err(error);
        }
        next += 1;
    }
    if columns.height == 0 {
        return Err("录制文件没有采样点".to_owned());
    }
    assemble(columns)
}

/// The samples of a table that lists every column and has rows.
fn assemble(columns: &ImportedColumns) -> (samples: Result<Vec<MeasurementSample>, String>)
    requires
        columns.well_formed(),
        columns.names.len() == 23,
        columns.first_missing(0) == 23,
        columns.height > 0,
    ensures
        match samples {
            Ok(samples) => {
                &&& columns.error() is None
                &&& samples.len() == columns.height
                &&& forall|i: int|
                    0 <= i < samples.len() ==> #[trigger] samples@[i] == columns.sample(i)
                &&& forall|i: int, j: int|
                    0 <= i <= j < samples.len() ==> samples@[i].elapsed_us
                        <= samples@[j].elapsed_us
            },
            Err(error) => columns.error() == Some(error@),
        },
{
    proof {
        reveal_with_fuel(first_error, 24);
    }
    let elapsed_us = match required("elapsed_us", &columns.elapsed_us, 0) {
        Ok(cells) => cells,
        Err(error) => {
            return Err(error);
        },
    };
    let sample_index = match required("sample_index", &columns.sample_index, 0) {
        Ok(cells) => cells,
        Err(error) => {
            return Err(error);
        },
    };
    let sequence = match optional(&columns.sequence, 0) {
        Ok(cells) => cells,
        Err(error) => {
            return Err(error);
        },
    };
    let marker = match optional(&columns.marker, 0) {
        Ok(cells) => cells,
        Err(error) => {
            return Err(error);
        },
    };
    let sample_rate_hz = match optional(&columns.sample_rate_hz, 0) {
        Ok(cells) => cells,
        Err(error) => {
            return Err(error);
        },
    };
    let missing_samples = match optional(&columns.missing_samples, 0) {
        Ok(cells) => cells,
        Err(error) => {
            return Err(error);
        },
    };
    let gap_duration_us = match optional(&columns.gap_duration_us, 0) {
        Ok(cells) => cells,
        Err(error) => {
            return Err(error);
        },
    };
    let interpolated = match optional(&columns.interpolated, false) {
        Ok(cells) => cells,
        Err(error) => {
            return Err(error);
        },
    };
    let cumulative_missing_samples = match optional(&columns.cumulative_missing_samples, 0) {
        Ok(cells) => cells,
        Err(error) => {
            return Err(error);
        },
    };
    let cumulative_interpolated_duration_us = match optional(&columns.cumulative_interpolated_duration_us, 0) {
        Ok(cells) => cells,
        Err(error) => {
            return Err(error);
        },
    };
    let discarded_sequence_samples = match optional(&columns.discarded_sequence_samples, 0) {
        Ok(cells) => cells,
        Err(error) => {
            return Err(error);
        },
    };
    let cumulative_discarded_sequence_samples = match optional(&columns.cumulative_discarded_sequence_samples, 0) {
        Ok(cells) => cells,
        Err(error) => {
            return Err(error);
        },
    };
    let vbus_uv = match required("vbus_uv", &columns.vbus_uv, 0) {
        Ok(cells) => cells,
        Err(error) => {
            return Err(error);
        },
    };
    let ibus_ua = match required("ibus_ua", &columns.ibus_ua, 0) {
        Ok(cells) => cells,
        Err(error) => {
            return Err(error);
        },
    };
    let power_uw = match required("power_uw", &columns.power_uw, 0) {
        Ok(cells) => cells,
        Err(error) => {
            return Err(error);
        },
    };
    let charge = match required("charge_uah", &columns.charge, 0) {
        Ok(cells) => cells,
        Err(error) => {
            return Err(error);
        },
    };
    let energy = match required("energy_uwh", &columns.energy, 0) {
        Ok(cells) => cells,
        Err(error) => {
            return Err(error);
        },
    };
    let charge_throughput = match required("charge_throughput_uah", &columns.charge_throughput, 0) {
        Ok(cells) => cells,
        Err(error) => {
            return Err(error);
        },
    };
    let energy_throughput = match required("energy_throughput_uwh", &columns.energy_throughput, 0) {
        Ok(cells) => cells,
        Err(error) => {
            return Err(error);
        },
    };
    let cc1_uv = match optional(&columns.cc1_uv, 0) {
        Ok(cells) => cells,
        Err(error) => {
            return Err(error);
        },
    };
    let cc2_uv = match optional(&columns.cc2_uv, 0) {
        Ok(cells) => cells,
        Err(error) => {
            return Err(error);
        },
    };
    let dp_uv = match optional(&columns.dp_uv, 0) {
        Ok(cells) => cells,
        Err(error) => {
            return Err(error);
        },
    };
    let dm_uv = match optional(&columns.dm_uv, 0) {
        Ok(cells) => cells,
        Err(error) => {
            return Err(error);
        },
    };
    assert(columns.column_error() is None);
    let mut samples: Vec<MeasurementSample> = Vec::new();
    let mut row: usize = 0;
    while row < columns.height
        invariant
            columns.well_formed(),
            columns.names.len() == 23,
            columns.first_missing(0) == 23,
            columns.column_error() is None,
            row <= columns.height,
            samples.len() == row,
            columns.first_disorder(0) == columns.first_disorder(row as int),
            forall|i: int| 0 <= i < row ==> #[trigger] samples@[i] == columns.sample(i),
            forall|i: int, j: int|
                0 <= i <= j < row ==> samples@[i].elapsed_us <= samples@[j].elapsed_us,
            elapsed_us.len() == columns.height,
            forall|i: int|
                0 <= i < elapsed_us.len() ==> #[trigger] elapsed_us@[i] == cell(columns.elapsed_us, i, 0),
            sample_index.len() == columns.height,
            forall|i: int|
                0 <= i < sample_index.len() ==> #[trigger] sample_index@[i] == cell(columns.sample_index, i, 0),
            sequence.len() == columns.height,
            forall|i: int|
                0 <= i < sequence.len() ==> #[trigger] sequence@[i] == cell(columns.sequence, i, 0),
            marker.len() == columns.height,
            forall|i: int|
                0 <= i < marker.len() ==> #[trigger] marker@[i] == cell(columns.marker, i, 0),
            sample_rate_hz.len() == columns.height,
            forall|i: int|
                0 <= i < sample_rate_hz.len() ==> #[trigger] sample_rate_hz@[i] == cell(columns.sample_rate_hz, i, 0),
            missing_samples.len() == columns.height,
            forall|i: int|
                0 <= i < missing_samples.len() ==> #[trigger] missing_samples@[i] == cell(columns.missing_samples, i, 0),
            gap_duration_us.len() == columns.height,
            forall|i: int|
                0 <= i < gap_duration_us.len() ==> #[trigger] gap_duration_us@[i] == cell(columns.gap_duration_us, i, 0),
            interpolated.len() == columns.height,
            forall|i: int|
                0 <= i < interpolated.len() ==> #[trigger] interpolated@[i] == cell(columns.interpolated, i, false),
            cumulative_missing_samples.len() == columns.height,
            forall|i: int|
                0 <= i < cumulative_missing_samples.len() ==> #[trigger] cumulative_missing_samples@[i] == cell(columns.cumulative_missing_samples, i, 0),
            cumulative_interpolated_duration_us.len() == columns.height,
            forall|i: int|
                0 <= i < cumulative_interpolated_duration_us.len() ==> #[trigger] cumulative_interpolated_duration_us@[i] == cell(columns.cumulative_interpolated_duration_us, i, 0),
            discarded_sequence_samples.len() == columns.height,
            forall|i: int|
                0 <= i < discarded_sequence_samples.len() ==> #[trigger] discarded_sequence_samples@[i] == cell(columns.discarded_sequence_samples, i, 0),
            cumulative_discarded_sequence_samples.len() == columns.height,
            forall|i: int|
                0 <= i < cumulative_discarded_sequence_samples.len() ==> #[trigger] cumulative_discarded_sequence_samples@[i] == cell(columns.cumulative_discarded_sequence_samples, i, 0),
            vbus_uv.len() == columns.height,
            forall|i: int|
                0 <= i < vbus_uv.len() ==> #[trigger] vbus_uv@[i] == cell(columns.vbus_uv, i, 0),
            ibus_ua.len() == columns.height,
            forall|i: int|
                0 <= i < ibus_ua.len() ==> #[trigger] ibus_ua@[i] == cell(columns.ibus_ua, i, 0),
            power_uw.len() == columns.height,
            forall|i: int|
                0 <= i < power_uw.len() ==> #[trigger] power_uw@[i] == cell(columns.power_uw, i, 0),
            charge.len() == columns.height,
            forall|i: int|
                0 <= i < charge.len() ==> #[trigger] charge@[i] == cell(columns.charge, i, 0),
            energy.len() == columns.height,
            forall|i: int|
                0 <= i < energy.len() ==> #[trigger] energy@[i] == cell(columns.energy, i, 0),
            charge_throughput.len() == columns.height,
            forall|i: int|
                0 <= i < charge_throughput.len() ==> #[trigger] charge_throughput@[i] == cell(columns.charge_throughput, i, 0),
            energy_throughput.len() == columns.height,
            forall|i: int|
                0 <= i < energy_throughput.len() ==> #[trigger] energy_throughput@[i] == cell(columns.energy_throughput, i, 0),
            cc1_uv.len() == columns.height,
            forall|i: int|
                0 <= i < cc1_uv.len() ==> #[trigger] cc1_uv@[i] == cell(columns.cc1_uv, i, 0),
            cc2_uv.len() == columns.height,
            forall|i: int|
                0 <= i < cc2_uv.len() ==> #[trigger] cc2_uv@[i] == cell(columns.cc2_uv, i, 0),
            dp_uv.len() == columns.height,
            forall|i: int|
                0 <= i < dp_uv.len() ==> #[trigger] dp_uv@[i] == cell(columns.dp_uv, i, 0),
            dm_uv.len() == columns.height,
            forall|i: int|
                0 <= i < dm_uv.len() ==> #[trigger] dm_uv@[i] == cell(columns.dm_uv, i, 0),
        decreases columns.height - row,
    {
        let sample = MeasurementSample {
            elapsed_us: elapsed_us[row],
            sample_index: sample_index[row],
            sequence: clip_u16(sequence[row]),
            marker: clip_u16(marker[row]),
            sample_rate_hz: clip_u16(sample_rate_hz[row]),
            missing_samples: clip_u16(missing_samples[row]),
            gap_duration_us: gap_duration_us[row],
            interpolated: interpolated[row],
            cumulative_missing_samples: cumulative_missing_samples[row],
            cumulative_interpolated_duration_us: cumulative_interpolated_duration_us[row],
            discarded_sequence_samples: discarded_sequence_samples[row],
            cumulative_discarded_sequence_samples: cumulative_discarded_sequence_samples[row],
            vbus_uv: vbus_uv[row],
            ibus_ua: ibus_ua[row],
            power_uw: power_uw[row],
            charge: charge[row],
            energy: energy[row],
            charge_throughput: charge_throughput[row],
            energy_throughput: energy_throughput[row],
            cc1_uv: cc1_uv[row],
            cc2_uv: cc2_uv[row],
            dp_uv: dp_uv[row],
            dm_uv: dm_uv[row],
        };
        assert(sample == columns.sample(row as int));
        if row > 0 && sample.elapsed_us < samples[row - 1].elapsed_us {
            let mut error = "时间字段乱序：第 ".to_owned();
            append_decimal(&mut error, row as u128 + 2);
            error.append(" 行的 elapsed_us 小于前一行");
            return Err(error);
        }
        samples.push(sample);
        row += 1;
    }
    Ok(samples)
}

/// The kind of file that a path names, by its extension.
#[derive(Debug, Clone, Copy, PartialEq, Eq, Structural)]
pub enum RecordingFileKind {
    Csv,
    Parquet,
}

/// The kind of recording file that the extension `extension` stands for, in any
/// ASCII case.
pub fn recording_file_kind(extension: Option<&str>) -> (kind: Result<RecordingFileKind, String>)
    ensures
        match extension {
            None => kind matches Err(error) && error@
                == "文件没有扩展名，只支持 .csv 和 .parquet"@,
            Some(extension) => {
                let lower = crate::text::ascii_lowercase(extension@);
                if lower == "csv"@ {
                    kind == Ok::<RecordingFileKind, String>(RecordingFileKind::Csv)
                } else if lower == "parquet"@ {
                    kind == Ok::<RecordingFileKind, String>(RecordingFileKind::Parquet)
                } else {
                    kind matches Err(error) && error@
                        == "文件格式不支持，只能导入 KM003C CSV 或 Parquet"@
                }
            },
        },
{
    match extension {
        None => Err("文件没有扩展名，只支持 .csv 和 .parquet".to_owned()),
        Some(extension) => {
            let lower = crate::text::lowercase_characters(extension);
            if crate::text::same_text(&lower, "csv") {
                Ok(RecordingFileKind::Csv)
            } else if crate::text::same_text(&lower, "parquet") {
                Ok(RecordingFileKind::Parquet)
            } else {
                Err("文件格式不支持，只能导入 KM003C CSV 或 Parquet".to_owned())
            }
        },
    }
}

/// The message for a file that cannot be opened.
pub fn display_error(error: &str) -> (text: String)
    ensures
        text@ == "无法打开文件："@ + error@,
{
    let mut text = "无法打开文件：".to_owned();
    text.append(error);
    text
}

/// A table is taken for a recording exactly where it has the stable columns and
/// rows, no required cell is empty, and time never goes back.
pub proof fn law_import_needs_the_stable_schema_and_ordered_time(columns: ImportedColumns)
    ensures
        columns.error() is None <==> {
            &&& columns.names.len() == 23
            &&& columns.height > 0
            &&& forall|k: int|
                0 <= k < 23 ==> columns.lists(#[trigger] column_names()[k])
            &&& columns.column_error() is None
            &&& forall|i: int|
                0 < i < columns.height ==> columns.sample(i - 1).elapsed_us
                    <= (#[trigger] columns.sample(i)).elapsed_us
        },
{
    if columns.error() is None {
        lemma_all_listed(columns, 0);
        lemma_all_ordered(columns, 0);
    }
    if forall|k: int| 0 <= k < 23 ==> columns.lists(#[trigger] column_names()[k]) {
        lemma_nothing_missing(columns, 0);
    }
    if forall|i: int|
        0 < i < columns.height ==> columns.sample(i - 1).elapsed_us
            <= (#[trigger] columns.sample(i)).elapsed_us {
        lemma_nothing_disordered(columns, 0);
    }
}

proof fn lemma_all_listed(columns: ImportedColumns, from: int)
    requires
        0 <= from <= 23,
        columns.first_missing(from) >= 23,
    ensures
        forall|k: int| from <= k < 23 ==> columns.lists(#[trigger] column_names()[k]),
    decreases 23 - from,
{
    if from < 23 {
        lemma_all_listed(columns, from + 1);
    }
}

proof fn lemma_all_ordered(columns: ImportedColumns, from: int)
    requires
        0 <= from <= columns.height,
        columns.first_disorder(from) >= columns.height,
    ensures
        forall|i: int|
            from <= i < columns.height && 0 < i ==> columns.sample(i - 1).elapsed_us
                <= (#[trigger] columns.sample(i)).elapsed_us,
    decreases columns.height - from,
{
    if from < columns.height {
        lemma_all_ordered(columns, from + 1);
    }
}

/// Whether `column` could be read and holds `cells`.
pub open spec fn reads_cells<T>(
    column: Result<Vec<Option<T>>, String>,
    cells: Seq<Option<T>>,
) -> bool {
    column matches Ok(read) && read@ == cells
}

/// Whether `column` could be read and holds `cells`, none of them empty.
pub open spec fn reads_full<T>(column: Result<Vec<Option<T>>, String>, cells: Seq<T>) -> bool {
    reads_cells(column, Seq::new(cells.len(), |i: int| Some(cells[i])))
}

impl ImportedColumns {
    /// Whether these are the columns of `table`, read back.
    pub open spec fn reads(self, table: RecordingTable, rows: nat) -> bool {
        &&& texts(self.names@) == column_names()
        &&& self.height == rows
        &&& reads_full(self.elapsed_us, table.elapsed_us@)
        &&& reads_full(self.sample_index, table.sample_index@)
        &&& reads_cells(self.sequence, table.sequence@)
        &&& reads_cells(self.marker, table.marker@)
        &&& reads_cells(self.sample_rate_hz, table.sample_rate_hz@)
        &&& reads_cells(self.missing_samples, table.missing_samples@)
        &&& reads_cells(self.gap_duration_us, table.gap_duration_us@)
        &&& reads_cells(self.interpolated, table.interpolated@)
        &&& reads_cells(self.cumulative_missing_samples, table.cumulative_missing_samples@)
        &&& reads_cells(self.cumulative_interpolated_duration_us, table.cumulative_interpolated_duration_us@)
        &&& reads_cells(self.discarded_sequence_samples, table.discarded_sequence_samples@)
        &&& reads_cells(self.cumulative_discarded_sequence_samples, table.cumulative_discarded_sequence_samples@)
        &&& reads_full(self.vbus_uv, table.vbus_uv@)
        &&& reads_full(self.ibus_ua, table.ibus_ua@)
        &&& reads_full(self.power_uw, table.power_uw@)
        &&& reads_full(self.charge, table.charge@)
        &&& reads_full(self.energy, table.energy@)
        &&& reads_full(self.charge_throughput, table.charge_throughput@)
        &&& reads_full(self.energy_throughput, table.energy_throughput@)
        &&& reads_cells(self.cc1_uv, table.cc1_uv@)
        &&& reads_cells(self.cc2_uv, table.cc2_uv@)
        &&& reads_cells(self.dp_uv, table.dp_uv@)
        &&& reads_cells(self.dm_uv, table.dm_uv@)
    }
}

/// The sample that a row stands for.
pub open spec fn sample_of_row(row: RecordingRow) -> MeasurementSample {
    MeasurementSample {
        elapsed_us: row.elapsed_us,
        sample_index: row.sample_index,
        sequence: row.sequence as u16,
        marker: row.marker as u16,
        sample_rate_hz: row.sample_rate_hz as u16,
        missing_samples: row.missing_samples as u16,
        gap_duration_us: row.gap_duration_us,
        interpolated: row.interpolated,
        cumulative_missing_samples: row.cumulative_missing_samples,
        cumulative_interpolated_duration_us: row.cumulative_interpolated_duration_us,
        discarded_sequence_samples: row.discarded_sequence_samples,
        cumulative_discarded_sequence_samples: row.cumulative_discarded_sequence_samples,
        vbus_uv: row.vbus_uv,
        ibus_ua: row.ibus_ua,
        power_uw: row.power_uw,
        charge: row.charge,
        energy: row.energy,
        charge_throughput: row.charge_throughput,
        energy_throughput: row.energy_throughput,
        cc1_uv: row.cc1_uv,
        cc2_uv: row.cc2_uv,
        dp_uv: row.dp_uv,
        dm_uv: row.dm_uv,
    }
}

/// Whether the numbers that a sample keeps in 16 bits fit there.
pub open spec fn fits_sample(row: RecordingRow) -> bool {
    row.sequence <= 65535 && row.marker <= 65535 && row.sample_rate_hz <= 65535
        && row.missing_samples <= 65535
}

/// What is written is read back: the columns of a table of rows whose time does
/// not go back are a recording, and each of its samples is the row it was
/// written as.
pub proof fn law_written_rows_are_read_back(
    table: RecordingTable,
    rows: Seq<RecordingRow>,
    columns: ImportedColumns,
)
    requires
        rows.len() > 0,
        has_rows(table, rows.len()),
        forall|i: int| 0 <= i < rows.len() ==> holds_row(table, i, #[trigger] rows[i]),
        forall|i: int| 0 <= i < rows.len() ==> fits_sample(#[trigger] rows[i]),
        forall|i: int, j: int|
            0 <= i <= j < rows.len() ==> (#[trigger] rows[i]).elapsed_us <= (#[trigger] rows[j]).elapsed_us,
        columns.reads(table, rows.len()),
    ensures
        columns.error() is None,
        forall|i: int|
            0 <= i < rows.len() ==> #[trigger] columns.sample(i) == sample_of_row(rows[i]),
{
    assert forall|i: int| 0 <= i < rows.len() implies #[trigger] columns.sample(i)
        == sample_of_row(rows[i]) by {
        assert(holds_row(table, i, rows[i]));
        assert(fits_sample(rows[i]));
    }
    lemma_columns_are_usable(table, rows.len(), columns);
    assert forall|k: int| 0 <= k < 23 implies columns.lists(#[trigger] column_names()[k]) by {
        assert(texts(columns.names@)[k] == column_names()[k]);
    }
    assert forall|i: int| 0 < i < columns.height implies columns.sample(i - 1).elapsed_us
        <= (#[trigger] columns.sample(i)).elapsed_us by {
        assert(rows[i - 1].elapsed_us <= rows[i].elapsed_us);
        assert(columns.sample(i - 1).elapsed_us == rows[i - 1].elapsed_us);
    }
    lemma_nothing_missing(columns, 0);
    lemma_nothing_disordered(columns, 0);
}

/// What a file tells of a sample that the device stored: nothing of what the
/// device does not log.
pub open spec fn logged_part(sample: MeasurementSample) -> MeasurementSample {
    MeasurementSample {
        sequence: 0,
        marker: 0,
        sample_rate_hz: 0,
        missing_samples: 0,
        gap_duration_us: 0,
        interpolated: false,
        cumulative_missing_samples: 0,
        cumulative_interpolated_duration_us: 0,
        discarded_sequence_samples: 0,
        cumulative_discarded_sequence_samples: 0,
        cc1_uv: 0,
        cc2_uv: 0,
        dp_uv: 0,
        dm_uv: 0,
        ..sample
    }
}

/// A stored recording comes back from its file as the device logged it.
pub proof fn law_exported_logs_are_read_back(
    table: RecordingTable,
    samples: Seq<MeasurementSample>,
    columns: ImportedColumns,
)
    requires
        samples.len() > 0,
        has_rows(table, samples.len()),
        forall|i: int| 0 <= i < samples.len() ==> holds_offline(table, i, #[trigger] samples[i]),
        forall|i: int, j: int|
            0 <= i <= j < samples.len() ==> (#[trigger] samples[i]).elapsed_us
                <= (#[trigger] samples[j]).elapsed_us,
        columns.reads(table, samples.len()),
    ensures
        columns.error() is None,
        forall|i: int|
            0 <= i < samples.len() ==> #[trigger] columns.sample(i) == logged_part(samples[i]),
{
    assert forall|i: int| 0 <= i < samples.len() implies #[trigger] columns.sample(i)
        == logged_part(samples[i]) by {
        assert(holds_offline(table, i, samples[i]));
    }
    lemma_columns_are_usable(table, samples.len(), columns);
    assert forall|k: int| 0 <= k < 23 implies columns.lists(#[trigger] column_names()[k]) by {
        assert(texts(columns.names@)[k] == column_names()[k]);
    }
    assert forall|i: int| 0 < i < columns.height implies columns.sample(i - 1).elapsed_us
        <= (#[trigger] columns.sample(i)).elapsed_us by {
        assert(samples[i - 1].elapsed_us <= samples[i].elapsed_us);
        assert(columns.sample(i - 1).elapsed_us == samples[i - 1].elapsed_us);
    }
    lemma_nothing_missing(columns, 0);
    lemma_nothing_disordered(columns, 0);
}

/// No column of a table that was read back stands in the way.
proof fn lemma_columns_are_usable(table: RecordingTable, rows: nat, columns: ImportedColumns)
    requires
        has_rows(table, rows),
        columns.reads(table, rows),
    ensures
        columns.column_error() is None,
{
    lemma_none_empty(table.elapsed_us@, columns.elapsed_us);
    lemma_none_empty(table.sample_index@, columns.sample_index);
    lemma_none_empty(table.vbus_uv@, columns.vbus_uv);
    lemma_none_empty(table.ibus_ua@, columns.ibus_ua);
    lemma_none_empty(table.power_uw@, columns.power_uw);
    lemma_none_empty(table.charge@, columns.charge);
    lemma_none_empty(table.energy@, columns.energy);
    lemma_none_empty(table.charge_throughput@, columns.charge_throughput);
    lemma_none_empty(table.energy_throughput@, columns.energy_throughput);
    reveal_with_fuel(first_error, 24);
}

/// A column that is full has no empty cell.
proof fn lemma_none_empty<T>(cells: Seq<T>, column: Result<Vec<Option<T>>, String>)
    requires
        reads_full(column, cells),
    ensures
        first_empty(column->Ok_0@) == column->Ok_0@.len(),
{
    lemma_full(column->Ok_0@);
}

proof fn lemma_full<T>(cells: Seq<Option<T>>)
    requires
        forall|i: int| 0 <= i < cells.len() ==> (#[trigger] cells[i]) is Some,
    ensures
        first_empty(cells) == cells.len(),
    decreases cells.len(),
{
    if cells.len() > 0 {
        lemma_full(cells.drop_first());
    }
}

proof fn lemma_nothing_missing(columns: ImportedColumns, from: int)
    requires
        0 <= from <= 23,
        forall|k: int| 0 <= k < 23 ==> columns.lists(#[trigger] column_names()[k]),
    ensures
        columns.first_missing(from) == 23,
    decreases 23 - from,
{
    if from < 23 {
        assert(columns.lists(column_names()[from]));
        lemma_nothing_missing(columns, from + 1);
    }
}

proof fn lemma_nothing_disordered(columns: ImportedColumns, from: int)
    requires
        0 <= from <= columns.height,
        forall|i: int|
            0 < i < columns.height ==> columns.sample(i - 1).elapsed_us <= (#[trigger] columns.sample(
                i,
            )).elapsed_us,
    ensures
        columns.first_disorder(from) == columns.height,
    decreases columns.height - from,
{
    if from < columns.height {
        lemma_nothing_disordered(columns, from + 1);
    }
}

/// Whether `column` holds `value` in row `row`.
pub open spec fn tells<T>(column: Result<Vec<Option<T>>, String>, row: int, value: T) -> bool {
    column matches Ok(cells) && cells@[row] == Some(value)
}

/// Whether `column` could be read and has no cell in row `row`.
pub open spec fn leaves_out<T>(column: Result<Vec<Option<T>>, String>, row: int) -> bool {
    column matches Ok(cells) && cells@[row] is None
}

/// Each field of a sample is the cell of its own column; a cell that is left out
/// counts as nothing, and a number too large for its field as the largest one.
pub proof fn law_each_field_is_the_cell_of_its_column(
    columns: ImportedColumns,
    row: int,
    counter: u64,
    count: u32,
    reading: i64,
    amount: i128,
    flag: bool,
)
    ensures
        tells(columns.elapsed_us, row, counter) ==> columns.sample(row).elapsed_us
            == counter,
        tells(columns.sample_index, row, counter) ==> columns.sample(row).sample_index
            == counter,
        tells(columns.gap_duration_us, row, counter) ==> columns.sample(row).gap_duration_us
            == counter,
        tells(columns.cumulative_missing_samples, row, counter) ==> columns.sample(row).cumulative_missing_samples
            == counter,
        tells(columns.cumulative_interpolated_duration_us, row, counter) ==> columns.sample(row).cumulative_interpolated_duration_us
            == counter,
        tells(columns.cumulative_discarded_sequence_samples, row, counter) ==> columns.sample(row).cumulative_discarded_sequence_samples
            == counter,
        tells(columns.vbus_uv, row, reading) ==> columns.sample(row).vbus_uv == reading,
        tells(columns.ibus_ua, row, reading) ==> columns.sample(row).ibus_ua == reading,
        tells(columns.power_uw, row, reading) ==> columns.sample(row).power_uw == reading,
        tells(columns.cc1_uv, row, reading) ==> columns.sample(row).cc1_uv == reading,
        tells(columns.cc2_uv, row, reading) ==> columns.sample(row).cc2_uv == reading,
        tells(columns.dp_uv, row, reading) ==> columns.sample(row).dp_uv == reading,
        tells(columns.dm_uv, row, reading) ==> columns.sample(row).dm_uv == reading,
        tells(columns.charge, row, amount) ==> columns.sample(row).charge == amount,
        tells(columns.energy, row, amount) ==> columns.sample(row).energy == amount,
        tells(columns.charge_throughput, row, amount) ==> columns.sample(row).charge_throughput == amount,
        tells(columns.energy_throughput, row, amount) ==> columns.sample(row).energy_throughput == amount,
        tells(columns.discarded_sequence_samples, row, count) ==> columns.sample(row).discarded_sequence_samples
            == count,
        tells(columns.sequence, row, count) && count <= 65535 ==> columns.sample(row).sequence
            == count,
        tells(columns.sequence, row, count) && count > 65535 ==> columns.sample(row).sequence
            == 65535,
        tells(columns.marker, row, count) && count <= 65535 ==> columns.sample(row).marker
            == count,
        tells(columns.marker, row, count) && count > 65535 ==> columns.sample(row).marker
            == 65535,
        tells(columns.sample_rate_hz, row, count) && count <= 65535 ==> columns.sample(row).sample_rate_hz
            == count,
        tells(columns.sample_rate_hz, row, count) && count > 65535 ==> columns.sample(row).sample_rate_hz
            == 65535,
        tells(columns.missing_samples, row, count) && count <= 65535 ==> columns.sample(row).missing_samples
            == count,
        tells(columns.missing_samples, row, count) && count > 65535 ==> columns.sample(row).missing_samples
            == 65535,
        tells(columns.interpolated, row, flag) ==> columns.sample(row).interpolated == flag,
        leaves_out(columns.sequence, row) ==> columns.sample(row).sequence == 0,
        leaves_out(columns.marker, row) ==> columns.sample(row).marker == 0,
        leaves_out(columns.sample_rate_hz, row) ==> columns.sample(row).sample_rate_hz == 0,
        leaves_out(columns.missing_samples, row) ==> columns.sample(row).missing_samples == 0,
        leaves_out(columns.gap_duration_us, row) ==> columns.sample(row).gap_duration_us == 0,
        leaves_out(columns.cumulative_missing_samples, row) ==> columns.sample(row).cumulative_missing_samples == 0,
        leaves_out(columns.cumulative_interpolated_duration_us, row) ==> columns.sample(row).cumulative_interpolated_duration_us == 0,
        leaves_out(columns.discarded_sequence_samples, row) ==> columns.sample(row).discarded_sequence_samples == 0,
        leaves_out(columns.cumulative_discarded_sequence_samples, row) ==> columns.sample(row).cumulative_discarded_sequence_samples == 0,
        leaves_out(columns.cc1_uv, row) ==> columns.sample(row).cc1_uv == 0,
        leaves_out(columns.cc2_uv, row) ==> columns.sample(row).cc2_uv == 0,
        leaves_out(columns.dp_uv, row) ==> columns.sample(row).dp_uv == 0,
        leaves_out(columns.dm_uv, row) ==> columns.sample(row).dm_uv == 0,
        leaves_out(columns.interpolated, row) ==> !columns.sample(row).interpolated,
{
}

/// Whether every cell of `column` is there.
pub open spec fn is_full<T>(column: Result<Vec<Option<T>>, String>) -> bool {
    column matches Ok(cells) && forall|i: int| 0 <= i < cells.len() ==> (#[trigger] cells@[i])
        is Some
}

/// Where the cells of a column are all there, none is found empty; otherwise the
/// first one is.
proof fn lemma_first_empty<T>(cells: Seq<Option<T>>)
    ensures
        0 <= first_empty(cells) <= cells.len(),
        first_empty(cells) < cells.len() ==> cells[first_empty(cells)] is None,
        forall|i: int| 0 <= i < first_empty(cells) ==> (#[trigger] cells[i]) is Some,
    decreases cells.len(),
{
    if cells.len() > 0 && cells[0] is Some {
        let rest = cells.drop_first();
        lemma_first_empty(rest);
        assert forall|i: int| 0 <= i < first_empty(cells) implies (#[trigger] cells[i]) is Some by {
            if i > 0 {
                assert(rest[i - 1] == cells[i]);
            }
        }
    }
}

/// A column that must be full can be used exactly where it is; the first cell
/// that is missing is told by its line in the file, whose first line are the
/// names.
pub proof fn law_a_missing_cell_is_told_by_its_line<T>(
    name: Seq<char>,
    column: Result<Vec<Option<T>>, String>,
    at: int,
)
    ensures
        required_error(name, column) is None <==> is_full(column),
        column matches Err(error) ==> required_error(name, column) == Some(error@),
        column matches Ok(cells) ==> (0 <= at < cells.len() && cells@[at] is None && (forall|i: int|
            0 <= i < at ==> (#[trigger] cells@[i]) is Some) ==> required_error(name, column)
            == Some("字段 "@ + name + " 第 "@ + decimal((at + 2) as nat) + " 行为空"@)),
{
    match column {
        Ok(cells) => {
            lemma_first_empty(cells@);
            if 0 <= at < cells.len() && cells@[at] is None && (forall|i: int|
                0 <= i < at ==> (#[trigger] cells@[i]) is Some) {
                assert(first_empty(cells@) == at) by {
                    if first_empty(cells@) < at {
                        assert(cells@[first_empty(cells@)] is Some);
                    } else if at < first_empty(cells@) {
                        assert(cells@[at] is Some);
                    }
                }
            }
            if is_full(column) && first_empty(cells@) < cells.len() {
                assert(cells@[first_empty(cells@)] is Some);
            }
        },
        Err(_) => {},
    }
}

/// The time, the place, the readings and the amounts of every sample must be
/// there; of the other columns it is enough that they can be read.
pub proof fn law_a_recording_needs_its_readings(columns: ImportedColumns)
    ensures
        columns.column_error() is None <==> {
            &&& is_full(columns.elapsed_us)
            &&& is_full(columns.sample_index)
            &&& is_full(columns.vbus_uv)
            &&& is_full(columns.ibus_ua)
            &&& is_full(columns.power_uw)
            &&& is_full(columns.charge)
            &&& is_full(columns.energy)
            &&& is_full(columns.charge_throughput)
            &&& is_full(columns.energy_throughput)
            &&& columns.sequence is Ok
            &&& columns.marker is Ok
            &&& columns.sample_rate_hz is Ok
            &&& columns.missing_samples is Ok
            &&& columns.gap_duration_us is Ok
            &&& columns.interpolated is Ok
            &&& columns.cumulative_missing_samples is Ok
            &&& columns.cumulative_interpolated_duration_us is Ok
            &&& columns.discarded_sequence_samples is Ok
            &&& columns.cumulative_discarded_sequence_samples is Ok
            &&& columns.cc1_uv is Ok
            &&& columns.cc2_uv is Ok
            &&& columns.dp_uv is Ok
            &&& columns.dm_uv is Ok
        },
{
    law_a_missing_cell_is_told_by_its_line("elapsed_us"@, columns.elapsed_us, 0);
    law_a_missing_cell_is_told_by_its_line("sample_index"@, columns.sample_index, 0);
    law_a_missing_cell_is_told_by_its_line("vbus_uv"@, columns.vbus_uv, 0);
    law_a_missing_cell_is_told_by_its_line("ibus_ua"@, columns.ibus_ua, 0);
    law_a_missing_cell_is_told_by_its_line("power_uw"@, columns.power_uw, 0);
    law_a_missing_cell_is_told_by_its_line("charge_uah"@, columns.charge, 0);
    law_a_missing_cell_is_told_by_its_line("energy_uwh"@, columns.energy, 0);
    law_a_missing_cell_is_told_by_its_line(
        "charge_throughput_uah"@,
        columns.charge_throughput,
        0,
    );
    law_a_missing_cell_is_told_by_its_line(
        "energy_throughput_uwh"@,
        columns.energy_throughput,
        0,
    );
    reveal_with_fuel(first_error, 24);
}

/// A recording comes back from its file as it was measured: every reading is the
/// same, and time and amounts are what passed since the recording started.
pub proof fn law_a_recording_is_read_back_as_it_was_measured(
    start: MeasurementSample,
    samples: Seq<MeasurementSample>,
    table: RecordingTable,
    columns: ImportedColumns,
    k: int,
)
    requires
        0 <= k < samples.len() <= u64::MAX,
        has_rows(table, samples.len()),
        forall|i: int|
            0 <= i < samples.len() ==> holds_row(
                table,
                i,
                #[trigger] rows_of(
                    samples,
                    origin_at(Some(start)),
                    RecordingOffsets::none(),
                    0,
                )[i],
            ),
        columns.reads(table, samples.len()),
        start.elapsed_us <= samples[k].elapsed_us,
        i128::MIN <= samples[k].charge - start.charge <= i128::MAX,
        i128::MIN <= samples[k].energy - start.energy <= i128::MAX,
        i128::MIN <= samples[k].charge_throughput - start.charge_throughput <= i128::MAX,
        i128::MIN <= samples[k].energy_throughput - start.energy_throughput <= i128::MAX,
    ensures
        ({
            let read = columns.sample(k);
            let measured = samples[k];
            &&& read.sample_index == k
            &&& read.elapsed_us == measured.elapsed_us - start.elapsed_us
            &&& read.charge == measured.charge - start.charge
            &&& read.energy == measured.energy - start.energy
            &&& read.charge_throughput == measured.charge_throughput - start.charge_throughput
            &&& read.energy_throughput == measured.energy_throughput - start.energy_throughput
            &&& read.vbus_uv == measured.vbus_uv
            &&& read.ibus_ua == measured.ibus_ua
            &&& read.power_uw == measured.power_uw
            &&& read.cc1_uv == measured.cc1_uv
            &&& read.cc2_uv == measured.cc2_uv
            &&& read.dp_uv == measured.dp_uv
            &&& read.dm_uv == measured.dm_uv
            &&& read.sequence == measured.sequence
            &&& read.marker == measured.marker
            &&& read.sample_rate_hz == measured.sample_rate_hz
            &&& read.missing_samples == measured.missing_samples
            &&& read.gap_duration_us == measured.gap_duration_us
            &&& read.interpolated == measured.interpolated
            &&& read.discarded_sequence_samples == measured.discarded_sequence_samples
        }),
{
    let rows = rows_of(samples, origin_at(Some(start)), RecordingOffsets::none(), 0);
    assert(holds_row(table, k, rows[k]));
}

/// A row that goes back in time is told by its line in the file.
pub proof fn law_time_that_goes_back_is_told_by_its_line(columns: ImportedColumns, at: int)
    requires
        columns.names.len() == 23,
        forall|k: int| 0 <= k < 23 ==> columns.lists(#[trigger] column_names()[k]),
        columns.column_error() is None,
        0 < at < columns.height,
        columns.sample(at).elapsed_us < columns.sample(at - 1).elapsed_us,
        forall|i: int|
            0 < i < at ==> columns.sample(i - 1).elapsed_us <= (#[trigger] columns.sample(
                i,
            )).elapsed_us,
    ensures
        columns.error() == Some(
            "时间字段乱序：第 "@ + decimal((at + 2) as nat) + " 行的 elapsed_us 小于前一行"@,
        ),
{
    lemma_nothing_missing(columns, 0);
    lemma_disorder_found(columns, 0, at);
}

/// The first row that goes back in time is found.
proof fn lemma_disorder_found(columns: ImportedColumns, from: int, at: int)
    requires
        0 <= from <= at < columns.height,
        0 < at,
        columns.sample(at).elapsed_us < columns.sample(at - 1).elapsed_us,
        forall|i: int|
            0 < i < at ==> columns.sample(i - 1).elapsed_us <= (#[trigger] columns.sample(
                i,
            )).elapsed_us,
    ensures
        columns.first_disorder(from) == at,
    decreases at - from,
{
    if from < at {
        assert(columns.sample(from) == columns.sample(from));
        lemma_disorder_found(columns, from + 1, at);
    }
}

} // verus!
