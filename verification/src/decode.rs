//! The schema decoder: from a JSON value to a typed coverage export.
//!
//! Segments, branches and regions come as arrays of fixed length whose items
//! have fixed types; the decoder checks length and types before it takes the
//! fields. Lists and counters that a document may leave out decode as empty
//! or absent. Anything else that does not fit is an error that ends the
//! decoding: no part of a document is decoded alone.

use vstd::prelude::*;

use crate::json::{json_read, parse_json, Json, JsonView};
use crate::views::views;
use crate::model::{
    Branch, CoverageCounts, CoverageCountsView, CoverageExport, CoverageExportView,
    ExportData, ExportDataView, FileData, FileDataView, FunctionData, FunctionDataView, Percent,
    Region, Segment, Summary, SummaryView,
};

verus! {

/// The part of a document that did not have the shape the export format
/// gives it.
#[derive(Debug, Clone, Copy, PartialEq, Eq)]
pub enum SchemaError {
    /// The document itself: an object with `data`, `type` and `version`.
    Export,
    /// A data entry: an object with `files` and `totals`.
    Entry,
    /// A file record: an object with `filename` and `summary`.
    File,
    /// A segment: an array of three unsigned integers and three booleans.
    Segment,
    /// A branch: an array of nine unsigned integers.
    Branch,
    /// A function record: an object with `name`, `count`, `filenames` and
    /// `regions`.
    Function,
    /// A region: an array of eight unsigned integers.
    Region,
    /// A summary: an object.
    Summary,
    /// A counter: an object with `count`, `covered` and `percent`.
    Counter,
}

impl SchemaError {
    /// What the part has to look like, in words.
    pub fn describe(&self) -> (text: &'static str)
        ensures
            text@ == schema_error_text(*self),
    {
        match self {
            SchemaError::Export => "the export must be an object with `data`, `type` and `version`",
            SchemaError::Entry => "a data entry must be an object with `files` and `totals`",
            SchemaError::File => "a file must be an object with `filename` and `summary`",
            SchemaError::Segment =>
                "a segment must be an array of 3 unsigned integers and 3 booleans",
            SchemaError::Branch => "a branch must be an array of 9 unsigned integers",
            SchemaError::Function =>
                "a function must be an object with `name`, `count`, `filenames` and `regions`",
            SchemaError::Region => "a region must be an array of 8 unsigned integers",
            SchemaError::Summary => "a summary must be an object",
            SchemaError::Counter =>
                "a counter must be an object with `count`, `covered` and `percent`",
        }
    }
}

/// What a part has to look like, in words.
pub open spec fn schema_error_text(error: SchemaError) -> Seq<char> {
    match error {
        SchemaError::Export => "the export must be an object with `data`, `type` and `version`"@,
        SchemaError::Entry => "a data entry must be an object with `files` and `totals`"@,
        SchemaError::File => "a file must be an object with `filename` and `summary`"@,
        SchemaError::Segment => "a segment must be an array of 3 unsigned integers and 3 booleans"@,
        SchemaError::Branch => "a branch must be an array of 9 unsigned integers"@,
        SchemaError::Function =>
            "a function must be an object with `name`, `count`, `filenames` and `regions`"@,
        SchemaError::Region => "a region must be an array of 8 unsigned integers"@,
        SchemaError::Summary => "a summary must be an object"@,
        SchemaError::Counter =>
            "a counter must be an object with `count`, `covered` and `percent`"@,
    }
}

/// Why a text did not decode to a coverage export.
#[derive(Debug, Clone, PartialEq, Eq)]
pub enum DecodeError {
    /// The text is not JSON; the reader's words say where and why.
    Syntax(String),
    /// The text is JSON, but a part of it does not fit the export format.
    Schema(SchemaError),
}

/// The view of `DecodeError`.
pub ghost enum DecodeErrorView {
    Syntax(Seq<char>),
    Schema(SchemaError),
}

impl View for DecodeError {
    type V = DecodeErrorView;

    open spec fn view(&self) -> DecodeErrorView {
        match self {
            DecodeError::Syntax(message) => DecodeErrorView::Syntax(message@),
            DecodeError::Schema(error) => DecodeErrorView::Schema(*error),
        }
    }
}

/// What went wrong in decoding, in words.
pub open spec fn decode_error_text(error: DecodeErrorView) -> Seq<char> {
    match error {
        DecodeErrorView::Syntax(message) => message,
        DecodeErrorView::Schema(error) => schema_error_text(error),
    }
}

impl DecodeError {
    /// What went wrong, in words.
    pub fn message(&self) -> (text: String)
        ensures
            text@ == decode_error_text(self@),
    {
        match self {
            DecodeError::Syntax(message) => message.clone(),
            DecodeError::Schema(error) => String::from_str(error.describe()),
        }
    }
}

/// What a text decodes to: the export that its JSON value stands for, or the
/// error of the reader, or the part of the value that does not fit.
pub open spec fn decoded(text: Seq<char>) -> Result<CoverageExportView, DecodeErrorView> {
    match json_read(text) {
        Err(message) => Err(DecodeErrorView::Syntax(message)),
        Ok(json) => match CoverageExport::read(json) {
            Ok(export) => Ok(export),
            Err(error) => Err(DecodeErrorView::Schema(error)),
        },
    }
}

/// Decodes a JSON text to a coverage export.
///
/// # Errors
///
/// Returns an error if the text is not JSON, or if the JSON is not a
/// coverage export.
pub fn decode(text: &str) -> (outcome: Result<CoverageExport, DecodeError>)
    ensures
        match outcome {
            Ok(export) => decoded(text@) == Ok::<CoverageExportView, DecodeErrorView>(export@),
            Err(error) => decoded(text@) == Err::<CoverageExportView, DecodeErrorView>(error@),
        },
{
    match parse_json(text) {
        Err(message) => Err(DecodeError::Syntax(message)),
        Ok(json) => match CoverageExport::from_json(&json) {
            Ok(export) => Ok(export),
            Err(error) => Err(DecodeError::Schema(error)),
        },
    }
}

/// A type that the decoder reads from a JSON value.
pub trait FromJson: Sized + View {
    /// What `json` decodes to.
    spec fn read(json: JsonView) -> Result<Self::V, SchemaError>;

    /// Decodes `json`.
    fn from_json(json: &Json) -> (outcome: Result<Self, SchemaError>)
        ensures
            decoded_as(outcome, Self::read(json@)),
    ;
}

/// Whether `outcome` is `expected`: the same error, or a value with the
/// expected view.
pub open spec fn decoded_as<T: View>(
    outcome: Result<T, SchemaError>,
    expected: Result<T::V, SchemaError>,
) -> bool {
    match outcome {
        Ok(value) => expected == Ok::<T::V, SchemaError>(value@),
        Err(error) => expected == Err::<T::V, SchemaError>(error),
    }
}

/// Whether `outcome` is `expected`: the same error, or a list of values with
/// the expected views.
pub open spec fn decoded_list_as<T: View>(
    outcome: Result<Vec<T>, SchemaError>,
    expected: Result<Seq<T::V>, SchemaError>,
) -> bool {
    match outcome {
        Ok(values) => expected == Ok::<Seq<T::V>, SchemaError>(views(values@)),
        Err(error) => expected == Err::<Seq<T::V>, SchemaError>(error),
    }
}

/// What a list of JSON values decodes to: the decoded items in their order,
/// or the error of the first item that does not decode.
pub open spec fn read_list<T: FromJson>(items: Seq<JsonView>) -> Result<Seq<T::V>, SchemaError>
    decreases items.len(),
{
    if items.len() == 0 {
        Ok(Seq::empty())
    } else {
        match read_list::<T>(items.drop_last()) {
            Err(error) => Err(error),
            Ok(values) => match T::read(items.last()) {
                Err(error) => Err(error),
                Ok(value) => Ok(values.push(value)),
            },
        }
    }
}

/// An error among the first items of a list is the error of the whole list.
pub proof fn lemma_first_error_stays<T: FromJson>(items: Seq<JsonView>, count: int)
    requires
        0 <= count <= items.len(),
        read_list::<T>(items.take(count)) is Err,
    ensures
        read_list::<T>(items) == read_list::<T>(items.take(count)),
    decreases items.len() - count,
{
    if count < items.len() {
        assert(items.take(count + 1).drop_last() == items.take(count));
        lemma_first_error_stays::<T>(items, count + 1);
    } else {
        assert(items.take(count) == items);
    }
}

/// Decodes the items of a JSON array, in their order.
pub fn list_from_json<T: FromJson>(items: &Vec<Json>) -> (outcome: Result<Vec<T>, SchemaError>)
    ensures
        decoded_list_as(outcome, read_list::<T>(views(items@))),
{
    let ghost all = views(items@);
    let mut values: Vec<T> = Vec::new();
    let mut i: usize = 0;
    assert(views(values@) == Seq::<T::V>::empty());
    while i < items.len()
        invariant
            i <= items.len(),
            all == views(items@),
            read_list::<T>(all.take(i as int)) == Ok::<Seq<T::V>, SchemaError>(views(values@)),
        decreases items.len() - i,
    {
        proof {
            assert(all.take(i + 1).drop_last() == all.take(i as int));
            assert(all.take(i + 1).last() == items@[i as int]@);
        }
        match T::from_json(&items[i]) {
            Ok(value) => {
                let ghost before = values@;
                values.push(value);
                assert(views(values@) == views(before).push(value@));
            },
            Err(error) => {
                proof {
                    lemma_first_error_stays::<T>(all, i + 1);
                }
                return Err(error);
            },
        }
        i = i + 1;
    }
    assert(all.take(items@.len() as int) == all);
    Ok(values)
}

/// The text of the member `name`, which has to be there and be a string.
pub open spec fn text_member(json: JsonView, name: Seq<char>, owner: SchemaError) -> Result<
    Seq<char>,
    SchemaError,
> {
    match json.member(name) {
        Some(JsonView::Text(text)) => Ok(text),
        _ => Err(owner),
    }
}

/// The value of the member `name`, which has to be there and be an unsigned
/// integer.
pub open spec fn unsigned_member(json: JsonView, name: Seq<char>, owner: SchemaError) -> Result<
    u64,
    SchemaError,
> {
    match json.member(name) {
        Some(member) => match member.unsigned() {
            Some(value) => Ok(value),
            None => Err(owner),
        },
        None => Err(owner),
    }
}

/// The decoded items of the member `name`, which has to be there and be an
/// array.
pub open spec fn list_member<T: FromJson>(
    json: JsonView,
    name: Seq<char>,
    owner: SchemaError,
) -> Result<Seq<T::V>, SchemaError> {
    match json.member(name) {
        Some(JsonView::Array(items)) => read_list::<T>(items),
        _ => Err(owner),
    }
}

/// The decoded items of the member `name`, which has to be an array if it is
/// there; no item if it is not there.
pub open spec fn optional_list_member<T: FromJson>(
    json: JsonView,
    name: Seq<char>,
    owner: SchemaError,
) -> Result<Seq<T::V>, SchemaError> {
    match json.member(name) {
        None => Ok(Seq::empty()),
        Some(JsonView::Array(items)) => read_list::<T>(items),
        Some(_) => Err(owner),
    }
}

/// Whether each item is a string.
pub open spec fn all_text(items: Seq<JsonView>) -> bool {
    forall|i: int| 0 <= i < items.len() ==> (#[trigger] items[i]).text() is Some
}

/// The texts of the items of the member `name`, which has to be there and be
/// an array of strings.
pub open spec fn text_list_member(json: JsonView, name: Seq<char>, owner: SchemaError) -> Result<
    Seq<Seq<char>>,
    SchemaError,
> {
    match json.member(name) {
        Some(JsonView::Array(items)) => if all_text(items) {
            Ok(Seq::new(items.len(), |i: int| items[i].text()->0))
        } else {
            Err(owner)
        },
        _ => Err(owner),
    }
}

/// The decoded member `name`, which has to be there.
pub open spec fn decoded_member<T: FromJson>(
    json: JsonView,
    name: Seq<char>,
    owner: SchemaError,
) -> Result<T::V, SchemaError> {
    match json.member(name) {
        Some(member) => T::read(member),
        None => Err(owner),
    }
}

/// The counter in the member `name`; none if the member is not there or is
/// `null`.
pub open spec fn counter_member(json: JsonView, name: Seq<char>) -> Result<
    Option<CoverageCountsView>,
    SchemaError,
> {
    match json.member(name) {
        None => Ok(None),
        Some(JsonView::Null) => Ok(None),
        Some(member) => match CoverageCounts::read(member) {
            Ok(counts) => Ok(Some(counts)),
            Err(error) => Err(error),
        },
    }
}

fn decode_text_member(json: &Json, name: &str, owner: SchemaError) -> (outcome: Result<
    String,
    SchemaError,
>)
    ensures
        decoded_as(outcome, text_member(json@, name@, owner)),
{
    match json.member(name) {
        Some(member) => match member.text() {
            Some(text) => Ok(text.clone()),
            None => Err(owner),
        },
        None => Err(owner),
    }
}

fn decode_unsigned_member(json: &Json, name: &str, owner: SchemaError) -> (outcome: Result<
    u64,
    SchemaError,
>)
    ensures
        outcome == unsigned_member(json@, name@, owner),
{
    match json.member(name) {
        Some(member) => match member.unsigned() {
            Some(value) => Ok(value),
            None => Err(owner),
        },
        None => Err(owner),
    }
}

fn decode_list_member<T: FromJson>(json: &Json, name: &str, owner: SchemaError) -> (outcome:
    Result<Vec<T>, SchemaError>)
    ensures
        decoded_list_as(outcome, list_member::<T>(json@, name@, owner)),
{
    match json.member(name) {
        Some(member) => match member.items() {
            Some(items) => list_from_json(items),
            None => Err(owner),
        },
        None => Err(owner),
    }
}

fn decode_optional_list_member<T: FromJson>(
    json: &Json,
    name: &str,
    owner: SchemaError,
) -> (outcome: Result<Vec<T>, SchemaError>)
    ensures
        decoded_list_as(outcome, optional_list_member::<T>(json@, name@, owner)),
{
    match json.member(name) {
        Some(member) => match member.items() {
            Some(items) => list_from_json(items),
            None => Err(owner),
        },
        None => {
            let none: Vec<T> = Vec::new();
            assert(views(none@) == Seq::<T::V>::empty());
            Ok(none)
        },
    }
}

fn decode_text_list_member(json: &Json, name: &str, owner: SchemaError) -> (outcome: Result<
    Vec<String>,
    SchemaError,
>)
    ensures
        decoded_list_as(outcome, text_list_member(json@, name@, owner)),
{
    let items = match json.member(name) {
        Some(member) => match member.items() {
            Some(items) => items,
            None => {
                return Err(owner);
            },
        },
        None => {
            return Err(owner);
        },
    };
    let ghost all = views(items@);
    let mut texts: Vec<String> = Vec::new();
    let mut i: usize = 0;
    while i < items.len()
        invariant
            i <= items.len(),
            all == views(items@),
            json@.member(name@) == Some(JsonView::Array(all)),
            texts@.len() == i,
            forall|k: int| 0 <= k < i ==> (#[trigger] all[k]).text() == Some(texts@[k]@),
        decreases items.len() - i,
    {
        match items[i].text() {
            Some(text) => {
                texts.push(text.clone());
            },
            None => {
                assert(all[i as int].text() is None);
                return Err(owner);
            },
        }
        i = i + 1;
    }
    assert(views(texts@) == Seq::new(all.len(), |i: int| all[i].text()->0));
    Ok(texts)
}

fn decode_member<T: FromJson>(json: &Json, name: &str, owner: SchemaError) -> (outcome: Result<
    T,
    SchemaError,
>)
    ensures
        decoded_as(outcome, decoded_member::<T>(json@, name@, owner)),
{
    match json.member(name) {
        Some(member) => T::from_json(member),
        None => Err(owner),
    }
}

fn decode_counter_member(json: &Json, name: &str) -> (outcome: Result<
    Option<CoverageCounts>,
    SchemaError,
>)
    ensures
        match outcome {
            Ok(counter) => counter_member(json@, name@) == Ok::<
                Option<CoverageCountsView>,
                SchemaError,
            >(crate::model::counter_view(counter)),
            Err(error) => counter_member(json@, name@) == Err::<
                Option<CoverageCountsView>,
                SchemaError,
            >(error),
        },
{
    match json.member(name) {
        None => Ok(None),
        Some(member) => match member {
            Json::Null => Ok(None),
            _ => match CoverageCounts::from_json(member) {
                Ok(counts) => Ok(Some(counts)),
                Err(error) => Err(error),
            },
        },
    }
}

impl FromJson for Segment {
    open spec fn read(json: JsonView) -> Result<Segment, SchemaError> {
        match json {
            JsonView::Array(items) => if items.len() == 6 && items[0].unsigned() is Some
                && items[1].unsigned() is Some && items[2].unsigned() is Some
                && items[3].truth() is Some && items[4].truth() is Some && items[5].truth()
                is Some {
                Ok(
                    Segment {
                        line: items[0].unsigned()->0,
                        col: items[1].unsigned()->0,
                        count: items[2].unsigned()->0,
                        has_count: items[3].truth()->0,
                        is_region_entry: items[4].truth()->0,
                        is_gap_region: items[5].truth()->0,
                    },
                )
            } else {
                Err(SchemaError::Segment)
            },
            _ => Err(SchemaError::Segment),
        }
    }

    fn from_json(json: &Json) -> (outcome: Result<Segment, SchemaError>) {
        match json.items() {
            Some(items) => {
                if items.len() != 6 {
                    return Err(SchemaError::Segment);
                }
                match (
                    items[0].unsigned(),
                    items[1].unsigned(),
                    items[2].unsigned(),
                    items[3].truth(),
                    items[4].truth(),
                    items[5].truth(),
                ) {
                    (
                        Some(line),
                        Some(col),
                        Some(count),
                        Some(has_count),
                        Some(is_region_entry),
                        Some(is_gap_region),
                    ) => Ok(
                        Segment { line, col, count, has_count, is_region_entry, is_gap_region },
                    ),
                    _ => Err(SchemaError::Segment),
                }
            },
            None => Err(SchemaError::Segment),
        }
    }
}

/// Whether each of the first `count` items is an unsigned integer.
pub open spec fn starts_unsigned(items: Seq<JsonView>, count: int) -> bool {
    forall|i: int| 0 <= i < count ==> (#[trigger] items[i]).unsigned() is Some
}

/// The first `count` items as unsigned integers, if the array has exactly
/// `count` items and each is one.
fn unsigned_array(json: &Json, count: usize) -> (values: Option<Vec<u64>>)
    ensures
        match values {
            Some(values) => {
                &&& json@ matches JsonView::Array(items)
                &&& items.len() == count
                &&& values@.len() == count
                &&& forall|i: int|
                    0 <= i < count ==> (#[trigger] items[i]).unsigned() == Some(values@[i])
            },
            None => !(json@ matches JsonView::Array(items) && items.len() == count
                && starts_unsigned(items, count as int)),
        },
{
    match json.items() {
        Some(items) => {
            if items.len() != count {
                return None;
            }
            let ghost all = views(items@);
            let mut values: Vec<u64> = Vec::new();
            let mut i: usize = 0;
            while i < count
                invariant
                    i <= count,
                    count == items.len(),
                    all == views(items@),
                    json@ == JsonView::Array(all),
                    values@.len() == i,
                    forall|k: int|
                        0 <= k < i ==> (#[trigger] all[k]).unsigned() == Some(values@[k]),
                decreases count - i,
            {
                match items[i].unsigned() {
                    Some(value) => {
                        values.push(value);
                    },
                    None => {
                        assert(all[i as int].unsigned() is None);
                        return None;
                    },
                }
                i = i + 1;
            }
            Some(values)
        },
        None => None,
    }
}

impl FromJson for Branch {
    open spec fn read(json: JsonView) -> Result<Branch, SchemaError> {
        match json {
            JsonView::Array(items) => if items.len() == 9 && starts_unsigned(items, 9) {
                Ok(
                    Branch {
                        line_start: items[0].unsigned()->0,
                        col_start: items[1].unsigned()->0,
                        line_end: items[2].unsigned()->0,
                        col_end: items[3].unsigned()->0,
                        true_count: items[4].unsigned()->0,
                        false_count: items[5].unsigned()->0,
                    },
                )
            } else {
                Err(SchemaError::Branch)
            },
            _ => Err(SchemaError::Branch),
        }
    }

    fn from_json(json: &Json) -> (outcome: Result<Branch, SchemaError>) {
        match unsigned_array(json, 9) {
            Some(values) => Ok(
                Branch {
                    line_start: values[0],
                    col_start: values[1],
                    line_end: values[2],
                    col_end: values[3],
                    true_count: values[4],
                    false_count: values[5],
                },
            ),
            None => Err(SchemaError::Branch),
        }
    }
}

impl FromJson for Region {
    open spec fn read(json: JsonView) -> Result<Region, SchemaError> {
        match json {
            JsonView::Array(items) => if items.len() == 8 && starts_unsigned(items, 8) {
                Ok(
                    Region {
                        line_start: items[0].unsigned()->0,
                        col_start: items[1].unsigned()->0,
                        line_end: items[2].unsigned()->0,
                        col_end: items[3].unsigned()->0,
                        execution_count: items[4].unsigned()->0,
                        file_id: items[5].unsigned()->0,
                        expanded_file_id: items[6].unsigned()->0,
                        kind: items[7].unsigned()->0,
                    },
                )
            } else {
                Err(SchemaError::Region)
            },
            _ => Err(SchemaError::Region),
        }
    }

    fn from_json(json: &Json) -> (outcome: Result<Region, SchemaError>) {
        match unsigned_array(json, 8) {
            Some(values) => Ok(
                Region {
                    line_start: values[0],
                    col_start: values[1],
                    line_end: values[2],
                    col_end: values[3],
                    execution_count: values[4],
                    file_id: values[5],
                    expanded_file_id: values[6],
                    kind: values[7],
                },
            ),
            None => Err(SchemaError::Region),
        }
    }
}

impl FromJson for CoverageCounts {
    open spec fn read(json: JsonView) -> Result<CoverageCountsView, SchemaError> {
        match unsigned_member(json, "count"@, SchemaError::Counter) {
            Err(error) => Err(error),
            Ok(count) => match unsigned_member(json, "covered"@, SchemaError::Counter) {
                Err(error) => Err(error),
                Ok(covered) => match json.member("percent"@) {
                    Some(member) => match member.one_decimal() {
                        Some(percent) => Ok(CoverageCountsView { count, covered, percent }),
                        None => Err(SchemaError::Counter),
                    },
                    None => Err(SchemaError::Counter),
                },
            },
        }
    }

    fn from_json(json: &Json) -> (outcome: Result<CoverageCounts, SchemaError>) {
        let count = match decode_unsigned_member(json, "count", SchemaError::Counter) {
            Ok(count) => count,
            Err(error) => {
                return Err(error);
            },
        };
        let covered = match decode_unsigned_member(json, "covered", SchemaError::Counter) {
            Ok(covered) => covered,
            Err(error) => {
                return Err(error);
            },
        };
        match json.member("percent") {
            Some(Json::Number(number)) => match Percent::from_number(number) {
                Some(percent) => Ok(CoverageCounts { count, covered, percent }),
                None => Err(SchemaError::Counter),
            },
            _ => Err(SchemaError::Counter),
        }
    }
}

impl FromJson for Summary {
    open spec fn read(json: JsonView) -> Result<SummaryView, SchemaError> {
        if !(json is Object) {
            Err(SchemaError::Summary)
        } else {
            match counter_member(json, "branches"@) {
                Err(error) => Err(error),
                Ok(branches) => match counter_member(json, "functions"@) {
                    Err(error) => Err(error),
                    Ok(functions) => match counter_member(json, "instantiations"@) {
                        Err(error) => Err(error),
                        Ok(instantiations) => match counter_member(json, "lines"@) {
                            Err(error) => Err(error),
                            Ok(lines) => match counter_member(json, "regions"@) {
                                Err(error) => Err(error),
                                Ok(regions) => Ok(
                                    SummaryView {
                                        branches,
                                        functions,
                                        instantiations,
                                        lines,
                                        regions,
                                    },
                                ),
                            },
                        },
                    },
                },
            }
        }
    }

    fn from_json(json: &Json) -> (outcome: Result<Summary, SchemaError>) {
        match json {
            Json::Object(_) => {},
            _ => {
                return Err(SchemaError::Summary);
            },
        }
        let branches = match decode_counter_member(json, "branches") {
            Ok(counter) => counter,
            Err(error) => {
                return Err(error);
            },
        };
        let functions = match decode_counter_member(json, "functions") {
            Ok(counter) => counter,
            Err(error) => {
                return Err(error);
            },
        };
        let instantiations = match decode_counter_member(json, "instantiations") {
            Ok(counter) => counter,
            Err(error) => {
                return Err(error);
            },
        };
        let lines = match decode_counter_member(json, "lines") {
            Ok(counter) => counter,
            Err(error) => {
                return Err(error);
            },
        };
        let regions = match decode_counter_member(json, "regions") {
            Ok(counter) => counter,
            Err(error) => {
                return Err(error);
            },
        };
        Ok(Summary { branches, functions, instantiations, lines, regions })
    }
}

impl FromJson for FileData {
    open spec fn read(json: JsonView) -> Result<FileDataView, SchemaError> {
        match text_member(json, "filename"@, SchemaError::File) {
            Err(error) => Err(error),
            Ok(filename) => match optional_list_member::<Segment>(
                json,
                "segments"@,
                SchemaError::File,
            ) {
                Err(error) => Err(error),
                Ok(segments) => match optional_list_member::<Branch>(
                    json,
                    "branches"@,
                    SchemaError::File,
                ) {
                    Err(error) => Err(error),
                    Ok(branches) => match decoded_member::<Summary>(
                        json,
                        "summary"@,
                        SchemaError::File,
                    ) {
                        Err(error) => Err(error),
                        Ok(summary) => Ok(FileDataView { filename, segments, branches, summary }),
                    },
                },
            },
        }
    }

    fn from_json(json: &Json) -> (outcome: Result<FileData, SchemaError>) {
        let filename = match decode_text_member(json, "filename", SchemaError::File) {
            Ok(filename) => filename,
            Err(error) => {
                return Err(error);
            },
        };
        let segments: Vec<Segment> = match decode_optional_list_member(
            json,
            "segments",
            SchemaError::File,
        ) {
            Ok(segments) => segments,
            Err(error) => {
                return Err(error);
            },
        };
        let branches: Vec<Branch> = match decode_optional_list_member(
            json,
            "branches",
            SchemaError::File,
        ) {
            Ok(branches) => branches,
            Err(error) => {
                return Err(error);
            },
        };
        let summary: Summary = match decode_member(json, "summary", SchemaError::File) {
            Ok(summary) => summary,
            Err(error) => {
                return Err(error);
            },
        };
        assert(views(segments@) == segments@);
        assert(views(branches@) == branches@);
        Ok(FileData { filename, segments, branches, summary })
    }
}

impl FromJson for FunctionData {
    open spec fn read(json: JsonView) -> Result<FunctionDataView, SchemaError> {
        match text_member(json, "name"@, SchemaError::Function) {
            Err(error) => Err(error),
            Ok(name) => match unsigned_member(json, "count"@, SchemaError::Function) {
                Err(error) => Err(error),
                Ok(count) => match text_list_member(
                    json,
                    "filenames"@,
                    SchemaError::Function,
                ) {
                    Err(error) => Err(error),
                    Ok(filenames) => match list_member::<Region>(
                        json,
                        "regions"@,
                        SchemaError::Function,
                    ) {
                        Err(error) => Err(error),
                        Ok(regions) => match optional_list_member::<Branch>(
                            json,
                            "branches"@,
                            SchemaError::Function,
                        ) {
                            Err(error) => Err(error),
                            Ok(branches) => Ok(
                                FunctionDataView { name, count, filenames, regions, branches },
                            ),
                        },
                    },
                },
            },
        }
    }

    fn from_json(json: &Json) -> (outcome: Result<FunctionData, SchemaError>) {
        let name = match decode_text_member(json, "name", SchemaError::Function) {
            Ok(name) => name,
            Err(error) => {
                return Err(error);
            },
        };
        let count = match decode_unsigned_member(json, "count", SchemaError::Function) {
            Ok(count) => count,
            Err(error) => {
                return Err(error);
            },
        };
        let filenames = match decode_text_list_member(
            json,
            "filenames",
            SchemaError::Function,
        ) {
            Ok(filenames) => filenames,
            Err(error) => {
                return Err(error);
            },
        };
        let regions: Vec<Region> = match decode_list_member(
            json,
            "regions",
            SchemaError::Function,
        ) {
            Ok(regions) => regions,
            Err(error) => {
                return Err(error);
            },
        };
        let branches: Vec<Branch> = match decode_optional_list_member(
            json,
            "branches",
            SchemaError::Function,
        ) {
            Ok(branches) => branches,
            Err(error) => {
                return Err(error);
            },
        };
        assert(views(regions@) == regions@);
        assert(views(branches@) == branches@);
        Ok(FunctionData { name, count, filenames, regions, branches })
    }
}

impl FromJson for ExportData {
    open spec fn read(json: JsonView) -> Result<ExportDataView, SchemaError> {
        match list_member::<FileData>(json, "files"@, SchemaError::Entry) {
            Err(error) => Err(error),
            Ok(files) => match optional_list_member::<FunctionData>(
                json,
                "functions"@,
                SchemaError::Entry,
            ) {
                Err(error) => Err(error),
                Ok(functions) => match decoded_member::<Summary>(
                    json,
                    "totals"@,
                    SchemaError::Entry,
                ) {
                    Err(error) => Err(error),
                    Ok(totals) => Ok(ExportDataView { files, functions, totals }),
                },
            },
        }
    }

    fn from_json(json: &Json) -> (outcome: Result<ExportData, SchemaError>) {
        let files: Vec<FileData> = match decode_list_member(json, "files", SchemaError::Entry) {
            Ok(files) => files,
            Err(error) => {
                return Err(error);
            },
        };
        let functions: Vec<FunctionData> = match decode_optional_list_member(
            json,
            "functions",
            SchemaError::Entry,
        ) {
            Ok(functions) => functions,
            Err(error) => {
                return Err(error);
            },
        };
        let totals: Summary = match decode_member(json, "totals", SchemaError::Entry) {
            Ok(totals) => totals,
            Err(error) => {
                return Err(error);
            },
        };
        Ok(ExportData { files, functions, totals })
    }
}

impl FromJson for CoverageExport {
    open spec fn read(json: JsonView) -> Result<CoverageExportView, SchemaError> {
        match list_member::<ExportData>(json, "data"@, SchemaError::Export) {
            Err(error) => Err(error),
            Ok(data) => match text_member(json, "type"@, SchemaError::Export) {
                Err(error) => Err(error),
                Ok(export_type) => match text_member(json, "version"@, SchemaError::Export) {
                    Err(error) => Err(error),
                    Ok(version) => Ok(CoverageExportView { data, export_type, version }),
                },
            },
        }
    }

    fn from_json(json: &Json) -> (outcome: Result<CoverageExport, SchemaError>) {
        let data: Vec<ExportData> = match decode_list_member(json, "data", SchemaError::Export) {
            Ok(data) => data,
            Err(error) => {
                return Err(error);
            },
        };
        let export_type = match decode_text_member(json, "type", SchemaError::Export) {
            Ok(export_type) => export_type,
            Err(error) => {
                return Err(error);
            },
        };
        let version = match decode_text_member(json, "version", SchemaError::Export) {
            Ok(version) => version,
            Err(error) => {
                return Err(error);
            },
        };
        Ok(CoverageExport { data, export_type, version })
    }
}

} // verus!
