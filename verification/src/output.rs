//! What one invocation gives back, and how the files that the engine writes
//! are read into it.
//!
//! A text file becomes the recognised text as it stands. A box file has one
//! line for each recognised character: the character, a space, and the
//! coordinates of its box separated by single spaces.

use vstd::prelude::*;
use vstd::string::StrSliceExecFns;
use vstd::utf8::encode_utf8;
use multimap::MultiMap;
use polars::prelude::{NamedFrom, PolarsError, Series};
use crate::error::OcrError;
use crate::text::{
    chars_of, cut, field_spans, find_char, has_char, index_of, lemma_index_of_range, line_spans,
    lines, parse_i32, parse_i32_at, split, text_of,
};

verus! {

/// `multimap::MultiMap`: a map from a key to the values that were inserted
/// under it, in the order of their insertion.
#[verifier::external_type_specification]
#[verifier::external_body]
#[verifier::reject_recursive_types(K)]
#[verifier::reject_recursive_types(V)]
#[verifier::reject_recursive_types(S)]
pub struct ExMultiMap<K, V, S>(MultiMap<K, V, S>);

/// `polars::prelude::Series`: a named column of values.
#[verifier::external_type_specification]
#[verifier::external_body]
pub struct ExSeries(Series);

/// `polars::prelude::PolarsError`, which the arithmetic of `Series` names in
/// its result types.
#[verifier::external_type_specification]
#[verifier::external_body]
pub struct ExPolarsError(PolarsError);

/// Values by key: each key with the values inserted under it, oldest first.
pub type Entries = Map<Seq<char>, Seq<Seq<char>>>;

/// What a multimap of strings holds.
pub uninterp spec fn dict_entries(m: MultiMap<String, String>) -> Entries;

/// The name of a column.
pub uninterp spec fn series_name(s: Series) -> Seq<char>;

/// The numbers in a column of 32-bit integers, top to bottom.
pub uninterp spec fn series_values(s: Series) -> Seq<i32>;

/// `entries` after `value` has been inserted under `key`: appended to the
/// values of a key that is present, the only value of a key that is new.
pub open spec fn with_entry(entries: Entries, key: Seq<char>, value: Seq<char>) -> Entries {
    if entries.contains_key(key) {
        entries.insert(key, entries[key].push(value))
    } else {
        entries.insert(key, seq![value])
    }
}

/// `MultiMap::new`: a multimap without entries.
#[verifier::external_body]
fn dict_new() -> (m: MultiMap<String, String>)
    ensures
        dict_entries(m) == Entries::empty(),
{
    MultiMap::new()
}

/// `MultiMap::insert`: the value is pushed to the vector of a key that is
/// present; a key that is new gets a vector with the value alone.
#[verifier::external_body]
fn dict_insert(m: &mut MultiMap<String, String>, key: String, value: String)
    ensures
        dict_entries(*final(m)) == with_entry(dict_entries(*old(m)), key@, value@),
{
    m.insert(key, value)
}

/// `Series::new` on a name and a slice of `i32`: a column of that name that
/// holds those numbers, none of them missing. A column counts its values
/// with a 32-bit index, and the call fails on a slice that is too long for
/// one, so such a slice is left out.
#[verifier::external_body]
fn series_new(name: &str, values: &Vec<i32>) -> (s: Series)
    requires
        fits_column(values@.len()),
    ensures
        series_name(s) == name@,
        series_values(s) == values@,
{
    Series::new(name.into(), values)
}

/// One line of a box file: the character, the text after the first space,
/// and the numbers in that text.
pub struct BoxRecord {
    pub key: String,
    pub rest: String,
    pub values: Vec<i32>,
}

/// A `BoxRecord` as mathematical values.
pub struct BoxRow {
    pub key: Seq<char>,
    pub rest: Seq<char>,
    pub values: Seq<i32>,
}

impl View for BoxRecord {
    type V = BoxRow;

    open spec fn view(&self) -> BoxRow {
        BoxRow { key: self.key@, rest: self.rest@, values: self.values@ }
    }
}

/// The rows that `records` stand for, in order.
pub open spec fn rows_view(records: Seq<BoxRecord>) -> Seq<BoxRow> {
    Seq::new(records.len(), |i: int| records[i]@)
}

/// A character that only separates: a space, a tab or a carriage return.
pub open spec fn is_blank_char(c: char) -> bool {
    c == ' ' || c == '\t' || c == '\r'
}

/// A line of nothing but separating characters.
pub open spec fn is_blank(line: Seq<char>) -> bool {
    forall|i: int| 0 <= i < line.len() ==> is_blank_char(#[trigger] line[i])
}

/// A line that describes a character: it is not blank and holds a space.
pub open spec fn is_record(line: Seq<char>) -> bool {
    has_char(line, ' ') && !is_blank(line)
}

/// The part of a record line before its first space.
pub open spec fn record_key(line: Seq<char>) -> Seq<char> {
    line.take(index_of(line, ' '))
}

/// The part of a record line after its first space.
pub open spec fn record_rest(line: Seq<char>) -> Seq<char> {
    line.skip(index_of(line, ' ') + 1)
}

/// A column can hold `len` values: fewer than the largest 32-bit number.
pub open spec fn fits_column(len: nat) -> bool {
    len < u32::MAX
}

/// The pieces of `rest` between spaces are few enough for one column, and
/// every one of them spells a 32-bit integer.
pub open spec fn coordinates_ok(rest: Seq<char>) -> bool {
    &&& fits_column(split(rest, ' ').len())
    &&& forall|i: int|
        0 <= i < split(rest, ' ').len() ==> parse_i32(#[trigger] split(rest, ' ')[i]) is Some
}

/// The integers that the pieces of `rest` between spaces spell.
pub open spec fn coordinates(rest: Seq<char>) -> Seq<i32> {
    Seq::new(split(rest, ' ').len(), |i: int| parse_i32(split(rest, ' ')[i]).unwrap())
}

/// The row that a record line describes.
pub open spec fn row_of(line: Seq<char>) -> BoxRow {
    BoxRow {
        key: record_key(line),
        rest: record_rest(line),
        values: coordinates(record_rest(line)),
    }
}

/// Every record line among `ls` has well-formed coordinates.
pub open spec fn rows_ok(ls: Seq<Seq<char>>) -> bool {
    forall|i: int|
        0 <= i < ls.len() && is_record(#[trigger] ls[i]) ==> coordinates_ok(record_rest(ls[i]))
}

/// The rows that the record lines among `ls` describe, in the order of the lines.
pub open spec fn rows_of(ls: Seq<Seq<char>>) -> Seq<BoxRow>
    decreases ls.len(),
{
    if ls.len() == 0 {
        Seq::empty()
    } else if is_record(ls.last()) {
        rows_of(ls.drop_last()).push(row_of(ls.last()))
    } else {
        rows_of(ls.drop_last())
    }
}

fn blank_at(cs: &Vec<char>, from: usize, to: usize) -> (r: bool)
    requires
        from <= to <= cs.len(),
    ensures
        r == is_blank(cs@.subrange(from as int, to as int)),
{
    let ghost line = cs@.subrange(from as int, to as int);
    let mut i: usize = from;
    while i < to
        invariant
            from <= i <= to <= cs.len(),
            line == cs@.subrange(from as int, to as int),
            forall|j: int| 0 <= j < i - from ==> is_blank_char(#[trigger] line[j]),
        decreases to - i,
    {
        let c: char = cs[i];
        assert(line[i - from] == c);
        if !(c == ' ' || c == '\t' || c == '\r') {
            return false;
        }
        i = i + 1;
    }
    true
}

/// The integers in `cs[from..to]`, which are separated by single spaces.
/// `None` when a piece between spaces does not spell a 32-bit integer, or
/// when there are more pieces than a column holds.
fn coordinates_at(cs: &Vec<char>, from: usize, to: usize) -> (r: Option<Vec<i32>>)
    requires
        from <= to <= cs.len(),
    ensures
        r is Some <==> coordinates_ok(cs@.subrange(from as int, to as int)),
        r matches Some(v) ==> v@ == coordinates(cs@.subrange(from as int, to as int)),
{
    let ghost rest = cs@.subrange(from as int, to as int);
    let fields = field_spans(cs, from, to, ' ');
    assert(cut(cs@, fields@).len() == fields.len());
    if fields.len() >= u32::MAX as usize {
        return None;
    }
    let mut values: Vec<i32> = Vec::new();
    let mut i: usize = 0;
    while i < fields.len()
        invariant
            i <= fields.len(),
            fits_column(fields.len() as nat),
            rest == cs@.subrange(from as int, to as int),
            cut(cs@, fields@) == split(rest, ' '),
            forall|j: int| 0 <= j < fields.len() ==> (#[trigger] fields[j]).within(cs.len() as int),
            values.len() == i,
            forall|j: int| 0 <= j < i ==> parse_i32(#[trigger] split(rest, ' ')[j]) == Some(values@[j]),
        decreases fields.len() - i,
    {
        let f = &fields[i];
        assert(f.within(cs.len() as int));
        assert(cut(cs@, fields@)[i as int] == cs@.subrange(f.start as int, f.end as int));
        match parse_i32_at(cs, f.start, f.end) {
            None => {
                assert(parse_i32(split(rest, ' ')[i as int]) is None);
                return None;
            },
            Some(v) => {
                values.push(v);
            },
        }
        i = i + 1;
    }
    assert(cut(cs@, fields@).len() == fields.len());
    assert(values@ =~= coordinates(rest));
    Some(values)
}

/// The records that the lines of a box file describe, in the order of the
/// lines. Lines that are blank or hold no space describe nothing.
pub fn parse_box_records(content: &str) -> (r: Result<Vec<BoxRecord>, OcrError>)
    ensures
        match r {
            Ok(records) => rows_ok(lines(content@)) && rows_view(records@) == rows_of(
                lines(content@),
            ),
            Err(e) => e == OcrError::CoordinateParseFailure && !rows_ok(lines(content@)),
        },
{
    let cs = chars_of(content);
    let spans = line_spans(&cs);
    let ghost ls = lines(content@);
    let mut records: Vec<BoxRecord> = Vec::new();
    let mut k: usize = 0;
    assert(ls.take(0) == Seq::<Seq<char>>::empty());
    while k < spans.len()
        invariant
            k <= spans.len(),
            cs@ == content@,
            ls == lines(content@),
            cut(cs@, spans@) == ls,
            forall|j: int| 0 <= j < spans.len() ==> (#[trigger] spans[j]).within(cs.len() as int),
            rows_view(records@) == rows_of(ls.take(k as int)),
            forall|j: int| 0 <= j < k && is_record(#[trigger] ls[j]) ==> coordinates_ok(record_rest(ls[j])),
        decreases spans.len() - k,
    {
        let a: usize = spans[k].start;
        let b: usize = spans[k].end;
        assert(spans[k as int].within(cs.len() as int));
        assert(cut(cs@, spans@).len() == spans.len());
        let ghost line = ls[k as int];
        assert(line == cs@.subrange(a as int, b as int));
        assert(ls.take(k + 1).drop_last() == ls.take(k as int));
        assert(ls.take(k + 1).last() == line);
        let sp: usize = find_char(&cs, a, b, ' ');
        proof {
            lemma_index_of_range(line, ' ');
        }
        if sp < b && !blank_at(&cs, a, b) {
            assert(is_record(line));
            assert(record_key(line) == cs@.subrange(a as int, sp as int));
            assert(record_rest(line) == cs@.subrange(sp + 1, b as int));
            match coordinates_at(&cs, sp + 1, b) {
                None => {
                    assert(!coordinates_ok(record_rest(ls[k as int])));
                    return Err(OcrError::CoordinateParseFailure);
                },
                Some(values) => {
                    let ghost before = records@;
                    let record = BoxRecord {
                        key: text_of(&cs, a, sp),
                        rest: text_of(&cs, sp + 1, b),
                        values,
                    };
                    assert(record@ == row_of(line));
                    records.push(record);
                    assert(rows_view(records@) == rows_view(before).push(row_of(line)));
                },
            }
        } else {
            assert(!is_record(line));
        }
        k = k + 1;
    }
    assert(ls.take(k as int) == ls);
    Ok(records)
}

/// A named column of numbers, as mathematical values.
pub struct Column {
    pub name: Seq<char>,
    pub values: Seq<i32>,
}

/// The columns that `frames` stand for, in order.
pub open spec fn columns_view(frames: Seq<Series>) -> Seq<Column> {
    Seq::new(
        frames.len(),
        |i: int| Column { name: series_name(frames[i]), values: series_values(frames[i]) },
    )
}

/// The rest of each row under the row's character: for each character its
/// rows in the order in which they occur.
pub open spec fn dict_of(rows: Seq<BoxRow>) -> Entries
    decreases rows.len(),
{
    if rows.len() == 0 {
        Map::empty()
    } else {
        with_entry(dict_of(rows.drop_last()), rows.last().key, rows.last().rest)
    }
}

/// One column for each row, named by the row's character, with the row's numbers.
pub open spec fn columns_of(rows: Seq<BoxRow>) -> Seq<Column> {
    Seq::new(rows.len(), |i: int| Column { name: rows[i].key, values: rows[i].values })
}

/// What one invocation gives back.
pub struct ModelOutput {
    /// What the engine printed while it ran.
    pub output_info: String,
    /// The file that the engine wrote, byte for byte.
    pub output_bytes: Vec<u8>,
    /// In box mode: for each recognised character, the coordinate text of each of its boxes.
    pub output_dict: MultiMap<String, String>,
    /// The file that the engine wrote, as text.
    pub output_string: String,
    /// In box mode: one column of coordinates for each box, named by its character.
    pub output_dataframe: Vec<Series>,
}

/// A `ModelOutput` as mathematical values.
pub struct OutputView {
    pub info: Seq<char>,
    pub bytes: Seq<u8>,
    pub dict: Entries,
    pub text: Seq<char>,
    pub columns: Seq<Column>,
}

impl View for ModelOutput {
    type V = OutputView;

    open spec fn view(&self) -> OutputView {
        OutputView {
            info: self.output_info@,
            bytes: self.output_bytes@,
            dict: dict_entries(self.output_dict),
            text: self.output_string@,
            columns: columns_view(self.output_dataframe@),
        }
    }
}

/// The result that holds nothing.
pub open spec fn empty_output() -> OutputView {
    OutputView {
        info: Seq::empty(),
        bytes: Seq::empty(),
        dict: Map::empty(),
        text: Seq::empty(),
        columns: Seq::empty(),
    }
}

/// What reading the engine's file gives. In text mode the file is taken as
/// it stands. In box mode its record lines are read as well, and one of them
/// with an ill-formed coordinate, or with more coordinates than a column
/// holds, fails the whole reading.
pub open spec fn parsed(info: Seq<char>, content: Seq<char>, boxfile: bool) -> Result<
    OutputView,
    OcrError,
> {
    if !boxfile {
        Ok(
            OutputView {
                info,
                bytes: encode_utf8(content),
                dict: Map::empty(),
                text: content,
                columns: Seq::empty(),
            },
        )
    } else if rows_ok(lines(content)) {
        Ok(
            OutputView {
                info,
                bytes: encode_utf8(content),
                dict: dict_of(rows_of(lines(content))),
                text: content,
                columns: columns_of(rows_of(lines(content))),
            },
        )
    } else {
        Err(OcrError::CoordinateParseFailure)
    }
}

/// The result of a table run: the text pass with the dictionary and the
/// columns of the box pass.
pub open spec fn merged(text: OutputView, boxes: OutputView) -> OutputView {
    OutputView {
        info: text.info,
        bytes: text.bytes,
        dict: boxes.dict,
        text: text.text,
        columns: boxes.columns,
    }
}

impl ModelOutput {
    /// The result that holds nothing.
    pub fn new() -> (r: ModelOutput)
        ensures
            r@ == empty_output(),
    {
        let r = ModelOutput {
            output_info: String::new(),
            output_bytes: Vec::new(),
            output_dict: dict_new(),
            output_string: String::new(),
            output_dataframe: Vec::new(),
        };
        assert(r@.columns =~= Seq::<Column>::empty());
        r
    }

    /// The recognised text.
    pub fn to_string(&self) -> (r: String)
        ensures
            r@ == self@.text,
    {
        self.output_string.clone()
    }
}

/// The rows of lines with well-formed coordinates are few enough, each, for
/// one column.
pub proof fn lemma_rows_fit_columns(ls: Seq<Seq<char>>)
    requires
        rows_ok(ls),
    ensures
        forall|i: int|
            0 <= i < rows_of(ls).len() ==> fits_column((#[trigger] rows_of(ls)[i]).values.len()),
    decreases ls.len(),
{
    if ls.len() > 0 {
        let before = ls.drop_last();
        assert forall|i: int| 0 <= i < before.len() && is_record(#[trigger] before[i]) implies coordinates_ok(
            record_rest(before[i]),
        ) by {
            assert(before[i] == ls[i]);
        }
        lemma_rows_fit_columns(before);
        if is_record(ls.last()) {
            assert(ls[ls.len() - 1] == ls.last());
            assert(coordinates_ok(record_rest(ls.last())));
            assert forall|i: int| 0 <= i < rows_of(ls).len() implies fits_column(
                (#[trigger] rows_of(ls)[i]).values.len(),
            ) by {
                if i < rows_of(before).len() {
                    assert(rows_of(ls)[i] == rows_of(before)[i]);
                }
            }
        }
    }
}

/// The dictionary and the columns of `records`.
fn collect(records: &Vec<BoxRecord>) -> (r: (MultiMap<String, String>, Vec<Series>))
    requires
        forall|i: int|
            0 <= i < records.len() ==> fits_column((#[trigger] rows_view(records@)[i]).values.len()),
    ensures
        dict_entries(r.0) == dict_of(rows_view(records@)),
        columns_view(r.1@) == columns_of(rows_view(records@)),
{
    let ghost rows = rows_view(records@);
    let mut dict = dict_new();
    let mut frames: Vec<Series> = Vec::new();
    let mut i: usize = 0;
    assert(rows.take(0) == Seq::<BoxRow>::empty());
    while i < records.len()
        invariant
            i <= records.len(),
            rows == rows_view(records@),
            forall|j: int| 0 <= j < rows.len() ==> fits_column((#[trigger] rows[j]).values.len()),
            dict_entries(dict) == dict_of(rows.take(i as int)),
            frames.len() == i,
            forall|j: int|
                0 <= j < i ==> series_name(#[trigger] frames@[j]) == rows[j].key && series_values(
                    frames@[j],
                ) == rows[j].values,
        decreases records.len() - i,
    {
        let record = &records[i];
        assert(rows[i as int] == record@);
        assert(rows.take(i + 1).drop_last() == rows.take(i as int));
        assert(rows.take(i + 1).last() == rows[i as int]);
        dict_insert(&mut dict, record.key.clone(), record.rest.clone());
        frames.push(series_new(record.key.as_str(), &record.values));
        i = i + 1;
    }
    assert(rows.take(i as int) == rows);
    assert(columns_view(frames@) =~= columns_of(rows));
    (dict, frames)
}

/// Reads what the engine wrote. `info` is what it printed, `content` the
/// file, and `boxfile` says whether the file is a box file.
pub fn parse_output(info: String, content: String, boxfile: bool) -> (r: Result<
    ModelOutput,
    OcrError,
>)
    ensures
        match r {
            Ok(out) => parsed(info@, content@, boxfile) == Ok::<OutputView, OcrError>(out@),
            Err(e) => parsed(info@, content@, boxfile) == Err::<OutputView, OcrError>(e),
        },
{
    let bytes = content.as_str().as_bytes_vec();
    if !boxfile {
        let out = ModelOutput {
            output_info: info,
            output_bytes: bytes,
            output_dict: dict_new(),
            output_string: content,
            output_dataframe: Vec::new(),
        };
        assert(out@.columns =~= Seq::<Column>::empty());
        Ok(out)
    } else {
        match parse_box_records(content.as_str()) {
            Err(e) => Err(e),
            Ok(records) => {
                proof {
                    lemma_rows_fit_columns(lines(content@));
                }
                let (dict, frames) = collect(&records);
                Ok(
                    ModelOutput {
                        output_info: info,
                        output_bytes: bytes,
                        output_dict: dict,
                        output_string: content,
                        output_dataframe: frames,
                    },
                )
            },
        }
    }
}

/// Joins the two passes of a table run: the text pass gives what was
/// printed, the bytes and the text; the box pass gives the dictionary and the columns.
pub fn merge_outputs(text: ModelOutput, boxes: ModelOutput) -> (r: ModelOutput)
    ensures
        r@ == merged(text@, boxes@),
{
    ModelOutput {
        output_info: text.output_info,
        output_bytes: text.output_bytes,
        output_dict: boxes.output_dict,
        output_string: text.output_string,
        output_dataframe: boxes.output_dataframe,
    }
}

/// The test that a row describes the character `key`.
pub open spec fn has_key(key: Seq<char>) -> spec_fn(BoxRow) -> bool {
    |row: BoxRow| row.key == key
}

/// The coordinate text of a row.
pub open spec fn rest_of() -> spec_fn(BoxRow) -> Seq<char> {
    |row: BoxRow| row.rest
}

/// The dictionary of `rows` has exactly the characters of the rows as keys,
/// and under each character the coordinate texts of its rows, in the order
/// of the rows.
pub proof fn lemma_dict_of(rows: Seq<BoxRow>, key: Seq<char>)
    ensures
        dict_of(rows).contains_key(key) <==> exists|i: int|
            0 <= i < rows.len() && (#[trigger] rows[i]).key == key,
        dict_of(rows).contains_key(key) ==> dict_of(rows)[key] == rows.filter(
            has_key(key),
        ).map_values(rest_of()),
        !dict_of(rows).contains_key(key) ==> rows.filter(has_key(key)).len() == 0,
    decreases rows.len(),
{
    if rows.len() == 0 {
        assert(rows.filter(has_key(key)).len() == 0) by {
            reveal(Seq::filter);
        }
    } else {
        let before = rows.drop_last();
        let last = rows.last();
        lemma_dict_of(before, key);
        assert(rows == before.push(last));
        before.lemma_filter_push(last, has_key(key));
        let kept = before.filter(has_key(key));
        if last.key == key {
            assert(rows.filter(has_key(key)) == kept.push(last));
            assert(kept.push(last).map_values(rest_of()) == kept.map_values(rest_of()).push(
                last.rest,
            ));
            if !dict_of(before).contains_key(key) {
                assert(kept.map_values(rest_of()) == Seq::<Seq<char>>::empty());
            }
            assert(rows[rows.len() - 1].key == key);
        } else {
            assert(rows.filter(has_key(key)) == kept);
            if dict_of(rows).contains_key(key) {
                let i = choose|i: int| 0 <= i < before.len() && (#[trigger] before[i]).key == key;
                assert(rows[i].key == key);
            }
        }
        if exists|i: int| 0 <= i < rows.len() && (#[trigger] rows[i]).key == key {
            let i = choose|i: int| 0 <= i < rows.len() && (#[trigger] rows[i]).key == key;
            if i < before.len() {
                assert(before[i].key == key);
            }
        }
    }
}

} // verus!
