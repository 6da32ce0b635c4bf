use vstd::prelude::*;
use vstd::string::*;
use crate::number::{parse_u16, u16_of};
use crate::text::{copy_text, same_text};

verus! {

/// The visibility marker of a symbol that belongs to the public API.
pub const VISIBILITY_PUBLIC: &'static str = "+";

/// `i` is the position of the first `c` in `s`.
pub open spec fn is_first(s: Seq<char>, c: char, i: int) -> bool {
    0 <= i < s.len() && s[i] == c && forall|j: int| 0 <= j < i ==> s[j] != c
}

/// The packed API version that a `"<major>.<minor>"` value denotes:
/// split at the first dot, both parts 16-bit unsigned decimals,
/// packed as `major * 2^16 + minor`.
pub open spec fn version_of(s: Seq<char>) -> Option<u32> {
    if exists|i: int| is_first(s, '.', i) {
        let i = choose|i: int| is_first(s, '.', i);
        match (u16_of(s.take(i)), u16_of(s.skip(i + 1))) {
            (Some(major), Some(minor)) => Some((major as nat * 0x10000 + minor as nat) as u32),
            _ => None,
        }
    } else {
        None
    }
}

/// Reads a `"<major>.<minor>"` version value and packs it as `(major << 16) | minor`.
pub fn parse_version(s: &str) -> (r: Option<u32>)
    ensures
        r == version_of(s@),
{
    let n = s.unicode_len();
    let mut i: usize = 0;
    while i < n && s.get_char(i) != '.'
        invariant
            n == s@.len(),
            i <= n,
            forall|j: int| 0 <= j < i ==> s@[j] != '.',
        decreases n - i,
    {
        i = i + 1;
    }
    if i == n {
        return None;
    }
    assert(is_first(s@, '.', i as int));
    let ghost k = choose|k: int| is_first(s@, '.', k);
    assert(k == i) by {
        if k < i {
        } else if k > i {
        }
    }
    assert(s@.subrange(0, i as int) == s@.take(i as int));
    assert(s@.subrange(i + 1, n as int) == s@.skip(i + 1));
    let major = parse_u16(s, 0, i);
    let minor = parse_u16(s, i + 1, n);
    match (major, minor) {
        (Some(a), Some(b)) => {
            let v: u32 = ((a as u32) << 16u32) | (b as u32);
            assert(((a as u32) << 16u32) | (b as u32) == (a as u32) * 0x10000u32 + (b as u32))
                by (bit_vector)
                requires
                    a <= 0xffff,
                    b <= 0xffff,
            ;
            Some(v)
        },
        _ => None,
    }
}

/// The public API surface that a symbol manifest declares.
#[derive(Debug)]
pub struct ApiSymbols {
    pub api_version: u32,
    pub headers: Vec<String>,
    pub functions: Vec<String>,
    pub variables: Vec<String>,
}

/// What an `ApiSymbols` holds, as sequences of strings.
pub struct SymbolsModel {
    pub api_version: u32,
    pub headers: Seq<Seq<char>>,
    pub functions: Seq<Seq<char>>,
    pub variables: Seq<Seq<char>>,
}

pub open spec fn texts_of(v: Vec<String>) -> Seq<Seq<char>> {
    v@.map_values(|t: String| t@)
}

impl View for ApiSymbols {
    type V = SymbolsModel;

    open spec fn view(&self) -> SymbolsModel {
        SymbolsModel {
            api_version: self.api_version,
            headers: texts_of(self.headers),
            functions: texts_of(self.functions),
            variables: texts_of(self.variables),
        }
    }
}

/// Why a symbol manifest was refused; `row` counts from zero.
#[derive(Debug, Clone, Copy, PartialEq, Eq, Structural)]
pub enum SymbolError {
    /// The manifest is not readable as comma-separated records.
    Unreadable,
    /// A record does not have exactly three fields.
    MalformedRecord { row: usize },
    /// A public `Version` record whose value is not `<major>.<minor>`.
    MalformedVersion { row: usize },
}

/// The fields of each record of a manifest.
pub open spec fn rows_of(records: Seq<Vec<String>>) -> Seq<Seq<Seq<char>>> {
    records.map_values(|r: Vec<String>| texts_of(r))
}

pub open spec fn empty_model() -> SymbolsModel {
    SymbolsModel {
        api_version: 0,
        headers: Seq::empty(),
        functions: Seq::empty(),
        variables: Seq::empty(),
    }
}

/// A record that is public and of the given kind.
pub open spec fn is_entry(r: Seq<Seq<char>>, kind: Seq<char>) -> bool {
    r.len() == 3 && r[1] == VISIBILITY_PUBLIC@ && r[0] == kind
}

/// The effect of record `r`, at position `row`, on the symbols gathered so far.
pub open spec fn apply_row(m: SymbolsModel, r: Seq<Seq<char>>, row: int) -> Result<
    SymbolsModel,
    SymbolError,
> {
    if r.len() != 3 {
        Err(SymbolError::MalformedRecord { row: row as usize })
    } else if r[1] != VISIBILITY_PUBLIC@ {
        Ok(m)
    } else if r[0] == "Version"@ {
        match version_of(r[2]) {
            Some(v) => Ok(SymbolsModel { api_version: v, ..m }),
            None => Err(SymbolError::MalformedVersion { row: row as usize }),
        }
    } else if r[0] == "Header"@ {
        Ok(SymbolsModel { headers: m.headers.push(r[2]), ..m })
    } else if r[0] == "Function"@ {
        Ok(SymbolsModel { functions: m.functions.push(r[2]), ..m })
    } else if r[0] == "Variable"@ {
        Ok(SymbolsModel { variables: m.variables.push(r[2]), ..m })
    } else {
        Ok(m)
    }
}

/// The symbols that the records of a manifest declare, taken in order;
/// the first refused record decides the error.
pub open spec fn symbols_of(rows: Seq<Seq<Seq<char>>>) -> Result<SymbolsModel, SymbolError>
    decreases rows.len(),
{
    if rows.len() == 0 {
        Ok(empty_model())
    } else {
        match symbols_of(rows.drop_last()) {
            Ok(m) => apply_row(m, rows.last(), rows.len() - 1),
            Err(e) => Err(e),
        }
    }
}

proof fn lemma_error_stays(rows: Seq<Seq<Seq<char>>>, k: int)
    requires
        0 <= k <= rows.len(),
        symbols_of(rows.take(k)) is Err,
    ensures
        symbols_of(rows) == symbols_of(rows.take(k)),
    decreases rows.len(),
{
    if k < rows.len() {
        assert(rows.drop_last().take(k) == rows.take(k));
        lemma_error_stays(rows.drop_last(), k);
    } else {
        assert(rows.take(k) == rows);
    }
}

/// Gathers the public API surface from the records of a symbol manifest.
pub fn filter_symbols(records: &Vec<Vec<String>>) -> (r: Result<ApiSymbols, SymbolError>)
    ensures
        match r {
            Ok(a) => symbols_of(rows_of(records@)) == Ok::<SymbolsModel, SymbolError>(a@),
            Err(e) => symbols_of(rows_of(records@)) == Err::<SymbolsModel, SymbolError>(e),
        },
{
    let mut out = ApiSymbols {
        api_version: 0,
        headers: Vec::new(),
        functions: Vec::new(),
        variables: Vec::new(),
    };
    let ghost rows = rows_of(records@);
    let mut i: usize = 0;
    assert(out@.headers =~= Seq::<Seq<char>>::empty());
    assert(out@.functions =~= Seq::<Seq<char>>::empty());
    assert(out@.variables =~= Seq::<Seq<char>>::empty());
    assert(rows.take(0) =~= Seq::<Seq<Seq<char>>>::empty());
    while i < records.len()
        invariant
            i <= records.len(),
            rows == rows_of(records@),
            symbols_of(rows.take(i as int)) == Ok::<SymbolsModel, SymbolError>(out@),
        decreases records.len() - i,
    {
        let rec = &records[i];
        let ghost r = rows[i as int];
        assert(r == texts_of(*rec));
        assert(rows.take(i + 1).drop_last() == rows.take(i as int));
        assert(rows.take(i + 1).last() == r);
        if rec.len() != 3 {
            proof {
                lemma_error_stays(rows, i + 1);
            }
            return Err(SymbolError::MalformedRecord { row: i });
        }
        let name = rec[0].as_str();
        let visibility = rec[1].as_str();
        let value = &rec[2];
        assert(name@ == r[0] && visibility@ == r[1] && value@ == r[2]);
        let ghost before = out@;
        if same_text(visibility, VISIBILITY_PUBLIC) {
            if same_text(name, "Version") {
                match parse_version(value.as_str()) {
                    Some(v) => {
                        out.api_version = v;
                    },
                    None => {
                        proof {
                            lemma_error_stays(rows, i + 1);
                        }
                        return Err(SymbolError::MalformedVersion { row: i });
                    },
                }
            } else if same_text(name, "Header") {
                out.headers.push(copy_text(value));
                assert(out@.headers =~= before.headers.push(value@));
            } else if same_text(name, "Function") {
                out.functions.push(copy_text(value));
                assert(out@.functions =~= before.functions.push(value@));
            } else if same_text(name, "Variable") {
                out.variables.push(copy_text(value));
                assert(out@.variables =~= before.variables.push(value@));
            }
        }
        i = i + 1;
    }
    assert(rows.take(i as int) == rows);
    Ok(out)
}

/// What the csv crate reads from a manifest's bytes: its records, each a
/// sequence of fields, or nothing where the bytes are not CSV of UTF-8 text.
pub uninterp spec fn csv_rows(text: Seq<u8>) -> Option<Seq<Seq<Seq<char>>>>;

/// Relies on csv's `ReaderBuilder::from_reader` and `Reader::records`, with
/// no header row and records of any length: the records of `text`, or `None`
/// where the reader reports an error.
#[verifier::external_body]
fn read_records(text: &[u8]) -> (r: Option<Vec<Vec<String>>>)
    ensures
        match r {
            Some(v) => csv_rows(text@) == Some(rows_of(v@)),
            None => csv_rows(text@) is None,
        },
{
    let mut reader = csv::ReaderBuilder::new().has_headers(false).flexible(true).from_reader(text);
    reader
        .records()
        .map(|rec| rec.map(|rec| rec.iter().map(|f| f.to_string()).collect()))
        .collect::<Result<Vec<Vec<String>>, csv::Error>>()
        .ok()
}

/// Reads a symbol manifest, comma-separated records of name, visibility and
/// value, and gathers the public API surface it declares.
pub fn load_symbols(text: &[u8]) -> (r: Result<ApiSymbols, SymbolError>)
    ensures
        match csv_rows(text@) {
            None => r == Err::<ApiSymbols, SymbolError>(SymbolError::Unreadable),
            Some(rows) => match r {
                Ok(a) => symbols_of(rows) == Ok::<SymbolsModel, SymbolError>(a@),
                Err(e) => symbols_of(rows) == Err::<SymbolsModel, SymbolError>(e),
            },
        },
{
    match read_records(text) {
        Some(records) => filter_symbols(&records),
        None => Err(SymbolError::Unreadable),
    }
}

} // verus!
