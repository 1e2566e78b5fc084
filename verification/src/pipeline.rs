//! Building the index from reference records and labelling target records.
//!
//! A record is one line of comma-separated fields. In a reference record the
//! last three fields are latitude, longitude and timezone label. In a target
//! record the timezone field, which follows the last comma, is empty, and the
//! two fields before it are latitude and longitude. Any malformed record
//! stops the work: nothing is skipped.

use vstd::prelude::*;
use crate::index::{
    is_nearest, valid_latitude, valid_longitude, GeoPoint, SpatialIndex, MAX_LATITUDE,
    MAX_LONGITUDE,
};
use crate::numbers::{
    coordinate_spec, parse_latitude, parse_longitude, push_signed, signed_text, NumberError,
};
use crate::resolver::{resolve, resolve_spec, CalendarDate, OffsetError};
use crate::tokenizer::{
    copy_range, tokenize, tokenize_spec, utf8_text, TokenError, COMMA,
};

verus! {

/// What is wrong with a record, or with the index it is matched against.
#[derive(Clone, Copy, Debug, PartialEq, Eq, Structural)]
pub enum ErrorKind {
    /// The line could not be split into fields.
    Tokenize(TokenError),
    /// The line has too few fields.
    MissingField,
    /// The latitude is no number, or not between the poles.
    Latitude(NumberError),
    /// The longitude is no number, or beyond 180 degrees.
    Longitude(NumberError),
    /// A target record already carries a timezone.
    TimezoneNotEmpty,
    /// A query was made of an index without points.
    EmptyIndex,
    /// The closest point has no label.
    UnlabelledPoint,
    /// The label is not well-formed UTF-8, so no zone can be looked up.
    LabelNotText,
    /// No offset could be computed for the label.
    Offset(OffsetError),
}

/// A failure and the place, counted from zero, of the line that caused it.
#[derive(Clone, Copy, Debug, PartialEq, Eq, Structural)]
pub struct PipelineError {
    pub line: usize,
    pub kind: ErrorKind,
}

/// Latitude, longitude and label of a reference record.
pub open spec fn reference_spec(line: Seq<u8>) -> Result<(i64, i64, Seq<u8>), ErrorKind> {
    match tokenize_spec(line) {
        Err(e) => Err(ErrorKind::Tokenize(e)),
        Ok(fields) => {
            let n = fields.len() as int;
            if n < 3 {
                Err(ErrorKind::MissingField)
            } else {
                match coordinate_spec(fields[n - 3], MAX_LATITUDE as int) {
                    Err(e) => Err(ErrorKind::Latitude(e)),
                    Ok(lat) => match coordinate_spec(fields[n - 2], MAX_LONGITUDE as int) {
                        Err(e) => Err(ErrorKind::Longitude(e)),
                        Ok(lng) => Ok((lat, lng, fields[n - 1])),
                    },
                }
            }
        },
    }
}

/// The point is the one that the record describes.
pub open spec fn point_of(point: GeoPoint, record: (i64, i64, Seq<u8>)) -> bool {
    &&& point.latitude == record.0
    &&& point.longitude == record.1
    &&& point.label matches Some(label) && label@ == record.2
}

/// The timezone field of a target record, the text after its last comma,
/// is empty.
pub open spec fn timezone_is_empty(line: Seq<u8>) -> bool {
    line.len() == 0 || line.last() == COMMA
}

/// Latitude and longitude of a target record. A record with a timezone is
/// refused before anything else is looked at.
pub open spec fn query_spec(line: Seq<u8>) -> Result<(i64, i64), ErrorKind> {
    if !timezone_is_empty(line) {
        Err(ErrorKind::TimezoneNotEmpty)
    } else {
        match tokenize_spec(line) {
            Err(e) => Err(ErrorKind::Tokenize(e)),
            Ok(fields) => {
                let n = fields.len() as int;
                if n < 2 {
                    Err(ErrorKind::MissingField)
                } else {
                    match coordinate_spec(fields[n - 2], MAX_LATITUDE as int) {
                        Err(e) => Err(ErrorKind::Latitude(e)),
                        Ok(lat) => match coordinate_spec(fields[n - 1], MAX_LONGITUDE as int) {
                            Err(e) => Err(ErrorKind::Longitude(e)),
                            Ok(lng) => Ok((lat, lng)),
                        },
                    }
                }
            },
        }
    }
}

/// The output line for a record and the label found for it: the record as
/// it stands, then the label and, if a date is given, a comma and the
/// zone's offset in minutes on that date.
pub open spec fn labelled_spec(
    line: Seq<u8>,
    label: Option<Vec<u8>>,
    date: Option<CalendarDate>,
) -> Result<Seq<u8>, ErrorKind> {
    match label {
        None => Err(ErrorKind::UnlabelledPoint),
        Some(text) => match date {
            None => Ok(line + text@),
            Some(day) => if !vstd::utf8::valid_utf8(text@) {
                Err(ErrorKind::LabelNotText)
            } else {
                match resolve_spec(vstd::utf8::decode_utf8(text@), day) {
                    Err(e) => Err(ErrorKind::Offset(e)),
                    Ok(minutes) => Ok(line + text@ + seq![COMMA] + signed_text(minutes as int)),
                }
            },
        },
    }
}

/// `outcome` is a result that a record may get from an index over `points`:
/// the record's own error, or `EmptyIndex`, or the line labelled from a
/// stored point that is closest to the record's coordinates.
pub open spec fn enrich_outcome(
    points: Seq<GeoPoint>,
    line: Seq<u8>,
    date: Option<CalendarDate>,
    outcome: Result<Seq<u8>, ErrorKind>,
) -> bool {
    match query_spec(line) {
        Err(e) => outcome == Err::<Seq<u8>, ErrorKind>(e),
        Ok(at) => if points.len() == 0 {
            outcome == Err::<Seq<u8>, ErrorKind>(ErrorKind::EmptyIndex)
        } else {
            exists|best: int| #[trigger]
                is_nearest(points, at.0 as int, at.1 as int, best) && outcome == labelled_spec(
                    line,
                    points[best].label,
                    date,
                )
        },
    }
}

/// Some output line is a possible result for the record.
pub open spec fn may_succeed(points: Seq<GeoPoint>, line: Seq<u8>, date: Option<CalendarDate>) -> bool {
    exists|out: Seq<u8>| #[trigger] enrich_outcome(points, line, date, Ok(out))
}

/// A result with its bytes taken as a sequence.
pub open spec fn outcome_view(r: Result<Vec<u8>, ErrorKind>) -> Result<Seq<u8>, ErrorKind> {
    match r {
        Ok(bytes) => Ok(bytes@),
        Err(e) => Err(e),
    }
}

/// `out` begins with the bytes of `line`.
pub open spec fn starts_with(out: Seq<u8>, line: Seq<u8>) -> bool {
    out.len() >= line.len() && out.subrange(0, line.len() as int) == line
}

/// Every output line begins with its record, byte for byte.
pub proof fn lemma_output_keeps_record(
    points: Seq<GeoPoint>,
    line: Seq<u8>,
    date: Option<CalendarDate>,
    out: Seq<u8>,
)
    requires
        enrich_outcome(points, line, date, Ok(out)),
    ensures
        starts_with(out, line),
{
    let best = choose|best: int| #[trigger]
        is_nearest(points, query_spec(line).unwrap().0 as int, query_spec(line).unwrap().1 as int, best)
            && Ok::<Seq<u8>, ErrorKind>(out) == labelled_spec(line, points[best].label, date);
    lemma_labelled_keeps_record(line, points[best].label, date);
}

/// A labelled line begins with the record it was made from.
pub proof fn lemma_labelled_keeps_record(
    line: Seq<u8>,
    label: Option<Vec<u8>>,
    date: Option<CalendarDate>,
)
    ensures
        labelled_spec(line, label, date) matches Ok(out) ==> starts_with(out, line),
{
    match labelled_spec(line, label, date) {
        Ok(out) => {
            assert(out.subrange(0, line.len() as int) =~= line);
        },
        Err(_) => {},
    }
}

/// Reads a reference record.
pub fn reference_point(line: &[u8]) -> (r: Result<GeoPoint, ErrorKind>)
    ensures
        match reference_spec(line@) {
            Ok(record) => r matches Ok(point) && point_of(point, record) && point.valid(),
            Err(e) => r matches Err(kind) && kind == e,
        },
{
    let mut fields = match tokenize(line) {
        Ok(fields) => fields,
        Err(e) => {
            return Err(ErrorKind::Tokenize(e));
        },
    };
    let n: usize = fields.len();
    if n < 3 {
        return Err(ErrorKind::MissingField);
    }
    let latitude: i64 = match parse_latitude(fields[n - 3].as_slice()) {
        Ok(v) => v,
        Err(e) => {
            return Err(ErrorKind::Latitude(e));
        },
    };
    let longitude: i64 = match parse_longitude(fields[n - 2].as_slice()) {
        Ok(v) => v,
        Err(e) => {
            return Err(ErrorKind::Longitude(e));
        },
    };
    let label = fields.pop();
    Ok(GeoPoint { latitude, longitude, label })
}

/// Reads the coordinates of a target record.
pub fn target_query(line: &[u8]) -> (r: Result<(i64, i64), ErrorKind>)
    ensures
        r == query_spec(line@),
        r matches Ok(at) ==> valid_latitude(at.0 as int) && valid_longitude(at.1 as int),
{
    let len: usize = line.len();
    if len > 0 && line[len - 1] != COMMA {
        return Err(ErrorKind::TimezoneNotEmpty);
    }
    let fields = match tokenize(line) {
        Ok(fields) => fields,
        Err(e) => {
            return Err(ErrorKind::Tokenize(e));
        },
    };
    let n: usize = fields.len();
    if n < 2 {
        return Err(ErrorKind::MissingField);
    }
    let latitude: i64 = match parse_latitude(fields[n - 2].as_slice()) {
        Ok(v) => v,
        Err(e) => {
            return Err(ErrorKind::Latitude(e));
        },
    };
    let longitude: i64 = match parse_longitude(fields[n - 1].as_slice()) {
        Ok(v) => v,
        Err(e) => {
            return Err(ErrorKind::Longitude(e));
        },
    };
    Ok((latitude, longitude))
}

/// Appends all of `bytes`.
pub fn push_all(out: &mut Vec<u8>, bytes: &[u8])
    ensures
        final(out)@ == old(out)@ + bytes@,
{
    let mut i: usize = 0;
    while i < bytes.len()
        invariant
            i <= bytes@.len(),
            out@ == old(out)@ + bytes@.subrange(0, i as int),
        decreases bytes@.len() - i,
    {
        out.push(bytes[i]);
        i = i + 1;
        assert(out@ =~= old(out)@ + bytes@.subrange(0, i as int));
    }
    assert(bytes@.subrange(0, i as int) =~= bytes@);
}

/// The output line for a record, given the label of the point found for it.
pub fn labelled_line(line: &[u8], label: &Option<Vec<u8>>, date: Option<CalendarDate>) -> (r:
    Result<Vec<u8>, ErrorKind>)
    ensures
        outcome_view(r) == labelled_spec(line@, *label, date),
{
    let text = match label {
        None => {
            return Err(ErrorKind::UnlabelledPoint);
        },
        Some(text) => text,
    };
    let mut out = copy_range(line, 0, line.len());
    assert(out@ =~= line@);
    match date {
        None => {
            push_all(&mut out, text.as_slice());
            Ok(out)
        },
        Some(day) => {
            let zone = match utf8_text(text.as_slice()) {
                None => {
                    return Err(ErrorKind::LabelNotText);
                },
                Some(zone) => zone,
            };
            proof {
                vstd::utf8::encode_utf8_decode_utf8(zone@);
            }
            let minutes = match resolve(zone, day) {
                Err(e) => {
                    return Err(ErrorKind::Offset(e));
                },
                Ok(minutes) => minutes,
            };
            push_all(&mut out, text.as_slice());
            out.push(COMMA);
            push_signed(&mut out, minutes);
            assert(out@ =~= line@ + text@ + seq![COMMA] + signed_text(minutes as int));
            Ok(out)
        },
    }
}

/// Labels one target record from the index: the record, unchanged, with
/// the label of a closest stored point behind it and, if a date is given,
/// a comma and the zone's offset on that date.
pub fn enrich_line(index: &SpatialIndex, line: &[u8], date: Option<CalendarDate>) -> (r: Result<
    Vec<u8>,
    ErrorKind,
>)
    requires
        index.wf(),
    ensures
        enrich_outcome(index@, line@, date, outcome_view(r)),
        r matches Ok(out) ==> starts_with(out@, line@),
{
    let at = match target_query(line) {
        Err(e) => {
            return Err(e);
        },
        Ok(at) => at,
    };
    let best = match index.nearest_index(at.0, at.1) {
        None => {
            return Err(ErrorKind::EmptyIndex);
        },
        Some(best) => best,
    };
    let point = index.point(best);
    let r = labelled_line(line, &point.label, date);
    proof {
        lemma_labelled_keeps_record(line@, point.label, date);
        assert(is_nearest(index@, at.0 as int, at.1 as int, best as int));
    }
    r
}

/// Builds the index from the reference records, in their order. The first
/// record that cannot be read stops the build and is reported.
pub fn build_index(lines: &Vec<Vec<u8>>) -> (r: Result<SpatialIndex, PipelineError>)
    ensures
        match r {
            Ok(index) => {
                &&& index.wf()
                &&& index@.len() == lines@.len()
                &&& forall|i: int|
                    0 <= i < lines@.len() ==> ((#[trigger] reference_spec(lines@[i]@)) matches Ok(
                        record,
                    ) && point_of(index@[i], record))
            },
            Err(e) => {
                &&& e.line < lines@.len()
                &&& reference_spec(lines@[e.line as int]@) == Err::<(i64, i64, Seq<u8>), ErrorKind>(
                    e.kind,
                )
                &&& forall|j: int| 0 <= j < e.line ==> (#[trigger] reference_spec(lines@[j]@)) is Ok
            },
        },
{
    let mut index = SpatialIndex::new();
    let mut i: usize = 0;
    while i < lines.len()
        invariant
            i <= lines@.len(),
            index.wf(),
            index@.len() == i,
            forall|j: int|
                0 <= j < i ==> ((#[trigger] reference_spec(lines@[j]@)) matches Ok(record)
                    && point_of(index@[j], record)),
        decreases lines@.len() - i,
    {
        match reference_point(lines[i].as_slice()) {
            Err(kind) => {
                return Err(PipelineError { line: i, kind });
            },
            Ok(point) => {
                index.insert(point);
            },
        }
        i = i + 1;
    }
    Ok(index)
}

/// Labels all target records, in their order. The first record that fails
/// stops the work and is reported; on success there is one output line for
/// each record, and each begins with its record.
pub fn enrich_all(index: &SpatialIndex, lines: &Vec<Vec<u8>>, date: Option<CalendarDate>) -> (r:
    Result<Vec<Vec<u8>>, PipelineError>)
    requires
        index.wf(),
    ensures
        match r {
            Ok(out) => {
                &&& out@.len() == lines@.len()
                &&& forall|i: int|
                    0 <= i < lines@.len() ==> enrich_outcome(
                        index@,
                        lines@[i]@,
                        date,
                        Ok((#[trigger] out@[i])@),
                    ) && starts_with(out@[i]@, lines@[i]@)
            },
            Err(e) => {
                &&& e.line < lines@.len()
                &&& enrich_outcome(index@, lines@[e.line as int]@, date, Err(e.kind))
                &&& forall|j: int|
                    0 <= j < e.line ==> may_succeed(index@, (#[trigger] lines@[j])@, date)
            },
        },
{
    let mut out: Vec<Vec<u8>> = Vec::new();
    let mut i: usize = 0;
    while i < lines.len()
        invariant
            i <= lines@.len(),
            index.wf(),
            out@.len() == i,
            forall|j: int|
                0 <= j < i ==> enrich_outcome(index@, lines@[j]@, date, Ok((#[trigger] out@[j])@))
                    && starts_with(out@[j]@, lines@[j]@),
            forall|j: int| 0 <= j < i ==> may_succeed(index@, (#[trigger] lines@[j])@, date),
        decreases lines@.len() - i,
    {
        match enrich_line(index, lines[i].as_slice(), date) {
            Err(kind) => {
                return Err(PipelineError { line: i, kind });
            },
            Ok(line) => {
                assert(enrich_outcome(index@, lines@[i as int]@, date, Ok(line@)));
                out.push(line);
            },
        }
        i = i + 1;
    }
    Ok(out)
}

} // verus!
