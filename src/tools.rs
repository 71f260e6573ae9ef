use vstd::prelude::*;
use serde_json::Value;

use crate::wire::{as_text, member, value_text};

verus! {

/// Relies on dirs::desktop_dir: the user's desktop directory, when the
/// platform has one, written as text. A directory it gives is never the
/// empty path: it is absolute or inside the home directory.
#[verifier::external_body]
fn desktop_dir() -> (r: Option<String>)
    ensures
        r matches Some(p) ==> p@.len() > 0,
{
    dirs::desktop_dir().map(|p| p.to_string_lossy().into_owned())
}

/// Relies on serde_json's `Value::as_array`: the elements of an array value.
#[verifier::external_body]
fn as_array(v: &Value) -> (r: Option<&Vec<Value>>) {
    v.as_array()
}

/// Relies on serde_json's `Value::as_object` and `Map::keys`: the member
/// names of an object value, in the map's order.
#[verifier::external_body]
fn object_keys(v: &Value) -> (r: Option<Vec<String>>) {
    v.as_object().map(|o| o.keys().cloned().collect())
}

/// Relies on serde_json's `Value::is_null`.
#[verifier::external_body]
fn is_null(v: &Value) -> (r: bool) {
    v.is_null()
}

/// Whether `s` holds a path separator, `/` or `\`.
pub open spec fn has_separator(s: Seq<char>) -> bool {
    exists|i: int| 0 <= i < s.len() && (s[i] == '/' || s[i] == '\\')
}

/// `name` appended to the directory `base`, with one `/` between them
/// unless `base` is empty or already ends with one.
pub open spec fn path_join(base: Seq<char>, name: Seq<char>) -> Seq<char> {
    if base.len() == 0 || base.last() == '/' {
        base + name
    } else {
        base + seq!['/'] + name
    }
}

/// Where a file named `name` is written: a name with a separator stands as
/// it is; a bare name goes into `base`, or into `.` when there is none.
pub open spec fn resolved_path(name: Seq<char>, base: Option<Seq<char>>) -> Seq<char> {
    if has_separator(name) {
        name
    } else {
        path_join(
            match base {
                Some(b) => b,
                None => "."@,
            },
            name,
        )
    }
}

/// Whether `filename` holds a path separator.
pub fn contains_separator(filename: &str) -> (r: bool)
    ensures
        r == has_separator(filename@),
{
    let n = filename.unicode_len();
    let mut i: usize = 0;
    while i < n
        invariant
            n == filename@.len(),
            i <= n,
            forall|j: int| 0 <= j < i ==> filename@[j] != '/' && filename@[j] != '\\',
        decreases n - i,
    {
        let c = filename.get_char(i);
        if c == '/' || c == '\\' {
            return true;
        }
        i = i + 1;
    }
    false
}

/// The path for `filename`, given the default directory `base`.
pub fn resolve_filepath_in(filename: &str, base: Option<String>) -> (r: String)
    ensures
        r@ == resolved_path(filename@, crate::registry::id_view(base)),
{
    proof {
        reveal_strlit(".");
        reveal_strlit("/");
    }
    if contains_separator(filename) {
        return String::from_str(filename);
    }
    let mut dir = match base {
        Some(b) => b,
        None => String::from_str("."),
    };
    let n = dir.unicode_len();
    let ghost d = dir@;
    if n == 0 || dir.get_char(n - 1) == '/' {
        dir.append(filename);
        dir
    } else {
        dir.append("/");
        dir.append(filename);
        assert(dir@ =~= d + seq!['/'] + filename@);
        dir
    }
}

/// The path for `filename`: as given when it holds a separator, else inside
/// the desktop directory (or `.` where there is none).
pub fn resolve_filepath(filename: &str) -> (r: String)
    ensures
        has_separator(filename@) ==> r@ == filename@,
        !has_separator(filename@) ==> exists|base: Option<Seq<char>>|
            (base is None || base->Some_0.len() > 0) && r@ == #[trigger] resolved_path(
                filename@,
                base,
            ),
{
    let base = desktop_dir();
    resolve_filepath_in(filename, base)
}

/// `s` with each `"` doubled.
pub open spec fn double_quotes(s: Seq<char>) -> Seq<char>
    decreases s.len(),
{
    if s.len() == 0 {
        Seq::empty()
    } else {
        let rest = double_quotes(s.drop_last());
        if s.last() == '"' {
            rest + seq!['"', '"']
        } else {
            rest + seq![s.last()]
        }
    }
}

/// A CSV field: `s` in double quotes, with each inner `"` doubled.
pub open spec fn quoted_field(s: Seq<char>) -> Seq<char> {
    seq!['"'] + double_quotes(s) + seq!['"']
}

/// The fields `cells` joined by commas.
pub open spec fn joined(cells: Seq<Seq<char>>) -> Seq<char>
    decreases cells.len(),
{
    if cells.len() == 0 {
        Seq::empty()
    } else if cells.len() == 1 {
        cells[0]
    } else {
        joined(cells.drop_last()) + seq![','] + cells.last()
    }
}

/// Writes `s` as a quoted CSV field.
pub fn csv_field(s: &str) -> (r: String)
    ensures
        r@ == quoted_field(s@),
{
    proof {
        reveal_strlit("\"");
        reveal_strlit("\"\"");
    }
    let n = s.unicode_len();
    let mut out = String::from_str("\"");
    assert(out@ =~= seq!['"'] + double_quotes(s@.subrange(0, 0)));
    let mut i: usize = 0;
    while i < n
        invariant
            n == s@.len(),
            i <= n,
            out@ == seq!['"'] + double_quotes(s@.subrange(0, i as int)),
        decreases n - i,
    {
        proof {
            reveal_strlit("\"\"");
        }
        let piece = s.substring_char(i, i + 1);
        let ghost before = out@;
        let ghost next = s@.subrange(0, i + 1);
        assert(next.drop_last() =~= s@.subrange(0, i as int));
        assert(next.last() == s@[i as int]);
        assert(piece@ =~= seq![s@[i as int]]);
        if s.get_char(i) == '"' {
            out.append("\"\"");
            assert(out@ =~= before + seq!['"', '"']);
        } else {
            out.append(piece);
        }
        assert(out@ =~= seq!['"'] + double_quotes(next));
        i = i + 1;
    }
    assert(s@.subrange(0, n as int) =~= s@);
    out.append("\"");
    assert(out@ =~= quoted_field(s@));
    out
}

/// Joins the cells of one line with commas.
pub fn csv_line(cells: &Vec<String>) -> (r: String)
    ensures
        r@ == joined(cells@.map_values(|c: String| c@)),
{
    let ghost views = cells@.map_values(|c: String| c@);
    proof {
        reveal_strlit(",");
    }
    let mut out = String::new();
    assert(views.subrange(0, 0) =~= Seq::<Seq<char>>::empty());
    let mut i: usize = 0;
    while i < cells.len()
        invariant
            views == cells@.map_values(|c: String| c@),
            i <= cells.len(),
            out@ == joined(views.subrange(0, i as int)),
        decreases cells.len() - i,
    {
        let ghost next = views.subrange(0, i + 1);
        assert(next.drop_last() =~= views.subrange(0, i as int));
        assert(next.last() == cells@[i as int]@);
        let ghost before = out@;
        if i > 0 {
            proof {
                reveal_strlit(",");
            }
            out.append(",");
            out.append(cells[i].as_str());
            assert(out@ =~= before + seq![','] + cells@[i as int]@);
        } else {
            out.append(cells[i].as_str());
            assert(out@ =~= next[0]);
        }
        i = i + 1;
    }
    assert(views.subrange(0, cells.len() as int) =~= views);
    out
}

/// The fields of one data line: each cell quoted, joined by commas.
pub open spec fn record_text(cells: Seq<Seq<char>>) -> Seq<char> {
    joined(cells.map_values(|c: Seq<char>| quoted_field(c)))
}

/// The lines of a CSV file, each ended by a newline: the header line (names
/// as they are) when asked for, then one quoted line per row.
pub open spec fn csv_text(headers: Seq<Seq<char>>, rows: Seq<Seq<Seq<char>>>, with_header: bool) -> Seq<char>
    decreases rows.len(),
{
    if rows.len() == 0 {
        if with_header {
            joined(headers) + seq!['\n']
        } else {
            Seq::empty()
        }
    } else {
        csv_text(headers, rows.drop_last(), with_header) + record_text(rows.last()) + seq!['\n']
    }
}

/// The view of a table of strings.
pub open spec fn table_view(rows: Seq<Vec<String>>) -> Seq<Seq<Seq<char>>> {
    rows.map_values(|r: Vec<String>| r@.map_values(|c: String| c@))
}

/// Writes one data line: each cell quoted, joined by commas.
pub fn csv_record(cells: &Vec<String>) -> (r: String)
    ensures
        r@ == record_text(cells@.map_values(|c: String| c@)),
{
    let mut quoted: Vec<String> = Vec::new();
    let mut i: usize = 0;
    while i < cells.len()
        invariant
            i <= cells.len(),
            quoted@.len() == i,
            forall|j: int| 0 <= j < i ==> (#[trigger] quoted@[j])@ == quoted_field(cells@[j]@),
        decreases cells.len() - i,
    {
        let q = csv_field(cells[i].as_str());
        quoted.push(q);
        i = i + 1;
    }
    let r = csv_line(&quoted);
    assert(quoted@.map_values(|c: String| c@) =~= cells@.map_values(|c: String| c@).map_values(
        |c: Seq<char>| quoted_field(c),
    ));
    r
}

/// Writes a CSV file's text from its header names and rows of cells.
pub fn csv_document(headers: &Vec<String>, rows: &Vec<Vec<String>>, with_header: bool) -> (r: String)
    ensures
        r@ == csv_text(headers@.map_values(|c: String| c@), table_view(rows@), with_header),
{
    let ghost hv = headers@.map_values(|c: String| c@);
    let ghost tv = table_view(rows@);
    proof {
        reveal_strlit("\n");
    }
    let mut out = if with_header {
        let mut h = csv_line(headers);
        h.append("\n");
        h
    } else {
        String::new()
    };
    assert(tv.subrange(0, 0).len() == 0);
    let mut i: usize = 0;
    while i < rows.len()
        invariant
            hv == headers@.map_values(|c: String| c@),
            tv == table_view(rows@),
            i <= rows.len(),
            out@ == csv_text(hv, tv.subrange(0, i as int), with_header),
        decreases rows.len() - i,
    {
        proof {
            reveal_strlit("\n");
        }
        let ghost before = out@;
        let line = csv_record(&rows[i]);
        out.append(line.as_str());
        out.append("\n");
        let ghost next = tv.subrange(0, i + 1);
        assert(next.drop_last() =~= tv.subrange(0, i as int));
        assert(next.last() == rows@[i as int]@.map_values(|c: String| c@));
        assert(out@ =~= before + line@ + seq!['\n']);
        i = i + 1;
    }
    assert(tv.subrange(0, rows.len() as int) =~= tv);
    out
}

/// Why data cannot be written as a CSV table.
#[derive(Debug, PartialEq, Eq, Structural)]
pub enum CsvError {
    /// The value is not an array.
    NotAnArray,
    /// The array has no element.
    EmptyArray,
    /// An element is not an object.
    NotAnObject,
    /// An element's member names differ from the first element's.
    KeysDiffer,
}

/// One element of the data, as the CSV writer reads it.
pub enum CsvItem {
    /// An object: its members in order, each as (name, cell text).
    Object(Vec<(String, String)>),
    /// Any other value.
    Other,
}

/// The data handed to the CSV writer.
pub enum CsvData {
    /// An array, element by element.
    Array(Vec<CsvItem>),
    /// Any value that is not an array.
    Other,
}

/// The members of an item; none for an item that is not an object.
pub open spec fn fields_of(item: CsvItem) -> Seq<(String, String)> {
    match item {
        CsvItem::Object(f) => f@,
        CsvItem::Other => Seq::empty(),
    }
}

/// The member names, in order.
pub open spec fn field_names_of(fields: Seq<(String, String)>) -> Seq<Seq<char>> {
    fields.map_values(|f: (String, String)| f.0@)
}

/// The cell texts, in member order.
pub open spec fn field_cells_of(fields: Seq<(String, String)>) -> Seq<Seq<char>> {
    fields.map_values(|f: (String, String)| f.1@)
}

/// What writing `data` as CSV gives: the errors in the order they are
/// looked for, else the header line (the first object's member names, when
/// asked for) and one line per element.
pub open spec fn csv_outcome(data: CsvData, with_header: bool) -> Result<Seq<char>, CsvError> {
    match data {
        CsvData::Other => Err(CsvError::NotAnArray),
        CsvData::Array(items) => {
            let s = items@;
            if s.len() == 0 {
                Err(CsvError::EmptyArray)
            } else if exists|i: int| 0 <= i < s.len() && (#[trigger] s[i]) is Other {
                Err(CsvError::NotAnObject)
            } else if exists|i: int|
                0 <= i < s.len() && field_names_of(fields_of(#[trigger] s[i])) != field_names_of(
                    fields_of(s[0]),
                ) {
                Err(CsvError::KeysDiffer)
            } else {
                Ok(
                    csv_text(
                        field_names_of(fields_of(s[0])),
                        s.map_values(|it: CsvItem| field_cells_of(fields_of(it))),
                        with_header,
                    ),
                )
            }
        },
    }
}

/// The member names of an object, in order.
fn field_names(fields: &Vec<(String, String)>) -> (r: Vec<String>)
    ensures
        r@.map_values(|c: String| c@) == field_names_of(fields@),
{
    let mut r: Vec<String> = Vec::new();
    let mut i: usize = 0;
    while i < fields.len()
        invariant
            i <= fields.len(),
            r@.len() == i,
            forall|j: int| 0 <= j < i ==> (#[trigger] r@[j])@ == fields@[j].0@,
        decreases fields.len() - i,
    {
        r.push(fields[i].0.clone());
        i = i + 1;
    }
    assert(r@.map_values(|c: String| c@) =~= field_names_of(fields@));
    r
}

/// The cell texts of an object, in member order.
fn field_cells(fields: &Vec<(String, String)>) -> (r: Vec<String>)
    ensures
        r@.map_values(|c: String| c@) == field_cells_of(fields@),
{
    let mut r: Vec<String> = Vec::new();
    let mut i: usize = 0;
    while i < fields.len()
        invariant
            i <= fields.len(),
            r@.len() == i,
            forall|j: int| 0 <= j < i ==> (#[trigger] r@[j])@ == fields@[j].1@,
        decreases fields.len() - i,
    {
        r.push(fields[i].1.clone());
        i = i + 1;
    }
    assert(r@.map_values(|c: String| c@) =~= field_cells_of(fields@));
    r
}

/// Whether an object's member names are exactly `names`, in order.
fn same_names(fields: &Vec<(String, String)>, names: &Vec<String>) -> (r: bool)
    ensures
        r == (field_names_of(fields@) == names@.map_values(|c: String| c@)),
{
    if fields.len() != names.len() {
        assert(field_names_of(fields@).len() != names@.map_values(|c: String| c@).len());
        return false;
    }
    let mut i: usize = 0;
    while i < fields.len()
        invariant
            fields@.len() == names@.len(),
            i <= fields.len(),
            forall|j: int| 0 <= j < i ==> fields@[j].0@ == (#[trigger] names@[j])@,
        decreases fields.len() - i,
    {
        if fields[i].0 != names[i] {
            assert(field_names_of(fields@)[i as int] != names@.map_values(|c: String| c@)[i as int]);
            return false;
        }
        i = i + 1;
    }
    assert(field_names_of(fields@) =~= names@.map_values(|c: String| c@));
    true
}

/// Writes `data` as CSV text: every element must be an object, all with the
/// first object's member names; the header line holds those names and each
/// element gives one line of quoted cells.
pub fn render_csv(data: &CsvData, with_header: bool) -> (r: Result<String, CsvError>)
    ensures
        match r {
            Ok(t) => csv_outcome(*data, with_header) == Ok::<Seq<char>, CsvError>(t@),
            Err(e) => csv_outcome(*data, with_header) == Err::<Seq<char>, CsvError>(e),
        },
{
    let items = match data {
        CsvData::Other => return Err(CsvError::NotAnArray),
        CsvData::Array(items) => items,
    };
    let ghost s = items@;
    if items.len() == 0 {
        return Err(CsvError::EmptyArray);
    }
    let mut i: usize = 0;
    while i < items.len()
        invariant
            s == items@,
            *data matches CsvData::Array(v) && v@ == s,
            i <= items.len(),
            forall|j: int| 0 <= j < i ==> (#[trigger] s[j]) is Object,
        decreases items.len() - i,
    {
        match &items[i] {
            CsvItem::Other => {
                assert(s[i as int] is Other);
                return Err(CsvError::NotAnObject);
            },
            CsvItem::Object(_) => {},
        }
        i = i + 1;
    }
    let headers = match &items[0] {
        CsvItem::Object(f) => field_names(f),
        CsvItem::Other => return Err(CsvError::NotAnObject),
    };
    let ghost hv = headers@.map_values(|c: String| c@);
    assert(hv == field_names_of(fields_of(s[0])));
    let mut rows: Vec<Vec<String>> = Vec::new();
    i = 0;
    while i < items.len()
        invariant
            s == items@,
            *data matches CsvData::Array(v) && v@ == s,
            s.len() > 0,
            i <= items.len(),
            forall|j: int| 0 <= j < s.len() ==> (#[trigger] s[j]) is Object,
            hv == headers@.map_values(|c: String| c@),
            hv == field_names_of(fields_of(s[0])),
            forall|j: int| 0 <= j < i ==> field_names_of(fields_of(#[trigger] s[j])) == hv,
            rows@.len() == i,
            forall|j: int|
                0 <= j < i ==> (#[trigger] rows@[j])@.map_values(|c: String| c@) == field_cells_of(
                    fields_of(s[j]),
                ),
        decreases items.len() - i,
    {
        let f = match &items[i] {
            CsvItem::Object(f) => f,
            CsvItem::Other => return Err(CsvError::NotAnObject),
        };
        if !same_names(f, &headers) {
            assert(field_names_of(fields_of(s[i as int])) != field_names_of(fields_of(s[0])));
            return Err(CsvError::KeysDiffer);
        }
        rows.push(field_cells(f));
        i = i + 1;
    }
    let t = csv_document(&headers, &rows, with_header);
    assert(table_view(rows@) =~= s.map_values(|it: CsvItem| field_cells_of(fields_of(it))));
    Ok(t)
}

/// The text of one cell: a string as it is, null as nothing, a missing
/// member as nothing, any other value as its JSON text.
fn cell_text(row: &Value, key: &str) -> (r: String) {
    match member(row, key) {
        None => String::new(),
        Some(v) => match as_text(v) {
            Some(s) => s,
            None => if is_null(v) {
                String::new()
            } else {
                value_text(v)
            },
        },
    }
}

impl CsvData {
    /// Reads a JSON value into what the CSV writer looks at: whether it is an
    /// array, and for each element whether it is an object, with its member
    /// names and cell texts.
    pub fn from_value(data: &Value) -> (r: CsvData) {
        let items = match as_array(data) {
            Some(items) => items,
            None => return CsvData::Other,
        };
        let mut out: Vec<CsvItem> = Vec::new();
        let mut i: usize = 0;
        while i < items.len()
            decreases items.len() - i,
        {
            let item = match object_keys(&items[i]) {
                None => CsvItem::Other,
                Some(keys) => {
                    let mut fields: Vec<(String, String)> = Vec::new();
                    let mut k: usize = 0;
                    while k < keys.len()
                        invariant
                            i < items.len(),
                        decreases keys.len() - k,
                    {
                        let cell = cell_text(&items[i], keys[k].as_str());
                        fields.push((keys[k].clone(), cell));
                        k = k + 1;
                    }
                    CsvItem::Object(fields)
                },
            };
            out.push(item);
            i = i + 1;
        }
        CsvData::Array(out)
    }
}

} // verus!
