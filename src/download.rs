//! Read models of the daily download counters, extracted from storage rows.

use vstd::prelude::*;
use crate::policy::same_text;

verus! {

/// Earliest instant that can be rendered: 0001-01-01T00:00:00Z.
pub const MIN_SEC: i64 = -62135596800;

/// Latest instant that can be rendered: 9999-12-31T23:59:59Z.
pub const MAX_SEC: i64 = 253402300799;

pub const NSEC_PER_SEC: i32 = 1000000000;

/// An instant as seconds and nanoseconds since the Unix epoch, in UTC.
#[derive(Debug, Clone, Copy, PartialEq, Eq, Structural)]
pub struct Timestamp {
    pub sec: i64,
    pub nsec: i32,
}

impl Timestamp {
    pub open spec fn wf(self) -> bool {
        MIN_SEC <= self.sec <= MAX_SEC && 0 <= self.nsec < NSEC_PER_SEC
    }
}

/// The RFC 3339 text of an instant, as the `time` crate writes it in UTC.
pub uninterp spec fn rfc3339_of(sec: i64, nsec: i32) -> Seq<char>;

/// Relies on `time::Timespec::new`, `time::at_utc` and `time::Tm::rfc3339`
/// to write an instant as `YYYY-MM-DDTHH:MM:SSZ`. `Timespec::new` panics on
/// nanoseconds out of range; the seconds are kept to years 1 to 9999.
#[verifier::external_body]
fn format_rfc3339(sec: i64, nsec: i32) -> (r: String)
    requires
        MIN_SEC <= sec <= MAX_SEC,
        0 <= nsec < NSEC_PER_SEC,
    ensures
        r@ == rfc3339_of(sec, nsec),
{
    time::at_utc(time::Timespec::new(sec, nsec)).rfc3339().to_string()
}

impl Timestamp {
    /// The RFC 3339 text of this instant.
    pub fn encode(&self) -> (r: String)
        requires
            self.wf(),
        ensures
            r@ == rfc3339_of(self.sec, self.nsec),
    {
        format_rfc3339(self.sec, self.nsec)
    }
}

/// A value held in a column of a storage row.
#[derive(Debug, Clone, Copy, PartialEq, Eq, Structural)]
pub enum Value {
    Int(i32),
    Time(i64, i32),
}

/// A storage row: named columns in the order the store returned them.
#[derive(Debug, Clone)]
pub struct Row {
    pub columns: Vec<(String, Value)>,
}

/// Why a record could not be read.
#[derive(Debug, Clone)]
pub enum LoadError {
    NotFound(i32),
    MissingColumn(String),
    WrongType(String),
}

pub enum LoadFailure {
    NotFound(i32),
    MissingColumn(Seq<char>),
    WrongType(Seq<char>),
}

impl View for LoadError {
    type V = LoadFailure;

    open spec fn view(&self) -> LoadFailure {
        match self {
            LoadError::NotFound(id) => LoadFailure::NotFound(*id),
            LoadError::MissingColumn(s) => LoadFailure::MissingColumn(s@),
            LoadError::WrongType(s) => LoadFailure::WrongType(s@),
        }
    }
}

pub open spec fn load_result<T>(r: Result<T, LoadError>) -> Result<T, LoadFailure> {
    match r {
        Ok(v) => Ok(v),
        Err(e) => Err(e@),
    }
}

/// The value of the first of the first `n` columns named `name`.
pub open spec fn column_in(cols: Seq<(String, Value)>, name: Seq<char>, n: int) -> Option<Value>
    decreases n,
{
    if n <= 0 {
        None
    } else {
        match column_in(cols, name, n - 1) {
            Some(v) => Some(v),
            None => if cols[n - 1].0@ == name {
                Some(cols[n - 1].1)
            } else {
                None
            },
        }
    }
}

/// The value of the first column named `name`.
pub open spec fn column(cols: Seq<(String, Value)>, name: Seq<char>) -> Option<Value> {
    column_in(cols, name, cols.len() as int)
}

pub open spec fn int_column(cols: Seq<(String, Value)>, name: Seq<char>) -> Result<i32, LoadFailure> {
    match column(cols, name) {
        Some(Value::Int(v)) => Ok(v),
        Some(_) => Err(LoadFailure::WrongType(name)),
        None => Err(LoadFailure::MissingColumn(name)),
    }
}

/// A time column holds an instant that can be rendered.
pub open spec fn time_column(cols: Seq<(String, Value)>, name: Seq<char>) -> Result<
    Timestamp,
    LoadFailure,
> {
    match column(cols, name) {
        Some(Value::Time(sec, nsec)) => if (Timestamp { sec, nsec }).wf() {
            Ok(Timestamp { sec, nsec })
        } else {
            Err(LoadFailure::WrongType(name))
        },
        Some(_) => Err(LoadFailure::WrongType(name)),
        None => Err(LoadFailure::MissingColumn(name)),
    }
}

impl Row {
    fn lookup(&self, name: &str) -> (r: Option<Value>)
        ensures
            r == column(self.columns@, name@),
    {
        let mut i: usize = 0;
        while i < self.columns.len()
            invariant
                i <= self.columns@.len(),
                column_in(self.columns@, name@, i as int) is None,
            decreases self.columns@.len() - i,
        {
            if same_text(self.columns[i].0.as_str(), name) {
                assert(column_in(self.columns@, name@, i + 1) == Some(self.columns@[i as int].1));
                proof {
                    lemma_column_prefix(self.columns@, name@, i + 1);
                }
                return Some(self.columns[i].1);
            }
            i = i + 1;
        }
        None
    }

    /// The integer in the first column named `name`.
    pub fn get_int(&self, name: &str) -> (r: Result<i32, LoadError>)
        ensures
            load_result(r) == int_column(self.columns@, name@),
    {
        match self.lookup(name) {
            Some(Value::Int(v)) => Ok(v),
            Some(_) => Err(LoadError::WrongType(name.to_string())),
            None => Err(LoadError::MissingColumn(name.to_string())),
        }
    }

    /// The instant in the first column named `name`.
    pub fn get_time(&self, name: &str) -> (r: Result<Timestamp, LoadError>)
        ensures
            load_result(r) == time_column(self.columns@, name@),
    {
        match self.lookup(name) {
            Some(Value::Time(sec, nsec)) => {
                if MIN_SEC <= sec && sec <= MAX_SEC && 0 <= nsec && nsec < NSEC_PER_SEC {
                    Ok(Timestamp { sec, nsec })
                } else {
                    Err(LoadError::WrongType(name.to_string()))
                }
            },
            Some(_) => Err(LoadError::WrongType(name.to_string())),
            None => Err(LoadError::MissingColumn(name.to_string())),
        }
    }
}

/// A column found among the first `n` stays the answer for the whole row.
proof fn lemma_column_prefix(cols: Seq<(String, Value)>, name: Seq<char>, n: int)
    requires
        0 <= n <= cols.len(),
        column_in(cols, name, n) is Some,
    ensures
        column(cols, name) == column_in(cols, name, n),
    decreases cols.len() - n,
{
    if n < cols.len() {
        lemma_column_prefix(cols, name, n + 1);
    }
}

/// One day's download count of one version.
#[derive(Debug, Clone, Copy, PartialEq, Eq, Structural)]
pub struct VersionDownload {
    pub id: i32,
    pub version_id: i32,
    pub downloads: i32,
    pub counted: i32,
    pub date: Timestamp,
}

/// The reported form of a `VersionDownload`.
#[derive(Debug, Clone)]
pub struct EncodableVersionDownload {
    pub id: i32,
    pub version: i32,
    pub downloads: i32,
    pub date: String,
}

/// One day's download count of one package.
#[derive(Debug, Clone, Copy, PartialEq, Eq, Structural)]
pub struct CrateDownload {
    pub id: i32,
    pub crate_id: i32,
    pub downloads: i32,
    pub date: Timestamp,
}

/// Columns are read in the order `id`, `version_id`, `downloads`, `counted`,
/// `date`; the first bad one is the error.
pub open spec fn version_download_of(cols: Seq<(String, Value)>) -> Result<
    VersionDownload,
    LoadFailure,
> {
    match int_column(cols, seq!['i', 'd']) {
        Err(f) => Err(f),
        Ok(id) => match int_column(
            cols,
            seq!['v', 'e', 'r', 's', 'i', 'o', 'n', '_', 'i', 'd'],
        ) {
            Err(f) => Err(f),
            Ok(version_id) => match int_column(
                cols,
                seq!['d', 'o', 'w', 'n', 'l', 'o', 'a', 'd', 's'],
            ) {
                Err(f) => Err(f),
                Ok(downloads) => match int_column(cols, seq!['c', 'o', 'u', 'n', 't', 'e', 'd']) {
                    Err(f) => Err(f),
                    Ok(counted) => match time_column(cols, seq!['d', 'a', 't', 'e']) {
                        Err(f) => Err(f),
                        Ok(date) => Ok(VersionDownload { id, version_id, downloads, counted, date }),
                    },
                },
            },
        },
    }
}

/// Columns are read in the order `id`, `crate_id`, `downloads`, `date`; the
/// first bad one is the error.
pub open spec fn crate_download_of(cols: Seq<(String, Value)>) -> Result<
    CrateDownload,
    LoadFailure,
> {
    match int_column(cols, seq!['i', 'd']) {
        Err(f) => Err(f),
        Ok(id) => match int_column(cols, seq!['c', 'r', 'a', 't', 'e', '_', 'i', 'd']) {
            Err(f) => Err(f),
            Ok(crate_id) => match int_column(
                cols,
                seq!['d', 'o', 'w', 'n', 'l', 'o', 'a', 'd', 's'],
            ) {
                Err(f) => Err(f),
                Ok(downloads) => match time_column(cols, seq!['d', 'a', 't', 'e']) {
                    Err(f) => Err(f),
                    Ok(date) => Ok(CrateDownload { id, crate_id, downloads, date }),
                },
            },
        },
    }
}

impl VersionDownload {
    pub open spec fn wf(self) -> bool {
        self.date.wf()
    }

    /// Reads a record from a row of `version_downloads`.
    pub fn from_row(row: &Row) -> (r: Result<VersionDownload, LoadError>)
        ensures
            load_result(r) == version_download_of(row.columns@),
            r is Ok ==> r->Ok_0.wf(),
    {
        proof {
            reveal_strlit("id");
            reveal_strlit("version_id");
            reveal_strlit("downloads");
            reveal_strlit("counted");
            reveal_strlit("date");
            assert("id"@ =~= seq!['i', 'd']);
            assert("version_id"@ =~= seq!['v', 'e', 'r', 's', 'i', 'o', 'n', '_', 'i', 'd']);
            assert("downloads"@ =~= seq!['d', 'o', 'w', 'n', 'l', 'o', 'a', 'd', 's']);
            assert("counted"@ =~= seq!['c', 'o', 'u', 'n', 't', 'e', 'd']);
            assert("date"@ =~= seq!['d', 'a', 't', 'e']);
        }
        let id = match row.get_int("id") {
            Ok(v) => v,
            Err(e) => return Err(e),
        };
        let version_id = match row.get_int("version_id") {
            Ok(v) => v,
            Err(e) => return Err(e),
        };
        let downloads = match row.get_int("downloads") {
            Ok(v) => v,
            Err(e) => return Err(e),
        };
        let counted = match row.get_int("counted") {
            Ok(v) => v,
            Err(e) => return Err(e),
        };
        let date = match row.get_time("date") {
            Ok(v) => v,
            Err(e) => return Err(e),
        };
        Ok(VersionDownload { id, version_id, downloads, counted, date })
    }

    /// The record the store returned for `id`, if any: `found` is the row
    /// that the lookup by identifier produced. No row, or a row for another
    /// identifier, gives `NotFound`; a record is never made up.
    pub fn find(id: i32, found: Option<Row>) -> (r: Result<VersionDownload, LoadError>)
        ensures
            match found {
                None => load_result(r) == Err::<VersionDownload, LoadFailure>(
                    LoadFailure::NotFound(id),
                ),
                Some(row) => load_result(r) == match version_download_of(row.columns@) {
                    Ok(v) => if v.id == id {
                        Ok(v)
                    } else {
                        Err(LoadFailure::NotFound(id))
                    },
                    Err(f) => Err(f),
                },
            },
            r is Ok ==> r->Ok_0.wf() && r->Ok_0.id == id,
    {
        match found {
            None => Err(LoadError::NotFound(id)),
            Some(row) => match VersionDownload::from_row(&row) {
                Ok(v) => if v.id == id {
                    Ok(v)
                } else {
                    Err(LoadError::NotFound(id))
                },
                Err(e) => Err(e),
            },
        }
    }

    /// The reported form: `counted` is left out and `version_id` becomes
    /// `version`.
    pub fn encodable(self) -> (r: EncodableVersionDownload)
        requires
            self.wf(),
        ensures
            r.id == self.id,
            r.version == self.version_id,
            r.downloads == self.downloads,
            r.date@ == rfc3339_of(self.date.sec, self.date.nsec),
    {
        EncodableVersionDownload {
            id: self.id,
            version: self.version_id,
            downloads: self.downloads,
            date: self.date.encode(),
        }
    }

    pub fn table_name() -> (r: &'static str)
        ensures
            r@ == seq!['v', 'e', 'r', 's', 'i', 'o', 'n', '_', 'd', 'o', 'w', 'n', 'l', 'o', 'a', 'd', 's'],
    {
        proof {
            reveal_strlit("version_downloads");
        }
        "version_downloads"
    }
}

impl CrateDownload {
    pub open spec fn wf(self) -> bool {
        self.date.wf()
    }

    /// Reads a record from a row of `crate_downloads`.
    pub fn from_row(row: &Row) -> (r: Result<CrateDownload, LoadError>)
        ensures
            load_result(r) == crate_download_of(row.columns@),
            r is Ok ==> r->Ok_0.wf(),
    {
        proof {
            reveal_strlit("id");
            reveal_strlit("crate_id");
            reveal_strlit("downloads");
            reveal_strlit("date");
            assert("id"@ =~= seq!['i', 'd']);
            assert("crate_id"@ =~= seq!['c', 'r', 'a', 't', 'e', '_', 'i', 'd']);
            assert("downloads"@ =~= seq!['d', 'o', 'w', 'n', 'l', 'o', 'a', 'd', 's']);
            assert("date"@ =~= seq!['d', 'a', 't', 'e']);
        }
        let id = match row.get_int("id") {
            Ok(v) => v,
            Err(e) => return Err(e),
        };
        let crate_id = match row.get_int("crate_id") {
            Ok(v) => v,
            Err(e) => return Err(e),
        };
        let downloads = match row.get_int("downloads") {
            Ok(v) => v,
            Err(e) => return Err(e),
        };
        let date = match row.get_time("date") {
            Ok(v) => v,
            Err(e) => return Err(e),
        };
        Ok(CrateDownload { id, crate_id, downloads, date })
    }

    /// The record the store returned for `id`, if any: `found` is the row
    /// that the lookup by identifier produced. No row, or a row for another
    /// identifier, gives `NotFound`; a record is never made up.
    pub fn find(id: i32, found: Option<Row>) -> (r: Result<CrateDownload, LoadError>)
        ensures
            match found {
                None => load_result(r) == Err::<CrateDownload, LoadFailure>(
                    LoadFailure::NotFound(id),
                ),
                Some(row) => load_result(r) == match crate_download_of(row.columns@) {
                    Ok(v) => if v.id == id {
                        Ok(v)
                    } else {
                        Err(LoadFailure::NotFound(id))
                    },
                    Err(f) => Err(f),
                },
            },
            r is Ok ==> r->Ok_0.wf() && r->Ok_0.id == id,
    {
        match found {
            None => Err(LoadError::NotFound(id)),
            Some(row) => match CrateDownload::from_row(&row) {
                Ok(v) => if v.id == id {
                    Ok(v)
                } else {
                    Err(LoadError::NotFound(id))
                },
                Err(e) => Err(e),
            },
        }
    }

    pub fn table_name() -> (r: &'static str)
        ensures
            r@ == seq!['c', 'r', 'a', 't', 'e', '_', 'd', 'o', 'w', 'n', 'l', 'o', 'a', 'd', 's'],
    {
        proof {
            reveal_strlit("crate_downloads");
        }
        "crate_downloads"
    }
}

} // verus!
