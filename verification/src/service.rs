//! The extraction services: identifier policies and the time-range
//! extractor that turns the composite date/time field of a raw record
//! into a [`TimeRecords`] value.
//!
//! The composite field is expected to hold, in order: an
//! effective-duration token `HH:MM:SS`, a line break, a three-letter day
//! abbreviation, a comma and space, a `DD/MM` date, a space, and two
//! `HH:MM:SS` clock times joined by a spaced en dash.  The time separator
//! may be the non-ASCII division-like character `\u{2236}`, which is
//! normalized to an ASCII colon before any time parsing.  A record either
//! matches this full shape or is rejected; only a malformed
//! effective-duration token degrades gracefully, to an absent duration.

use crate::document::{dto_views, parse_doc, parse_document};
use crate::domain::{
    ClockTime, ClockView, FileContent, TaskID, TaskView, TimeRecView, TimeRecords,
    ids_unique, lemma_insert_all_snoc, lemma_insert_all_unique, spec_insert_all,
};
use crate::dto::{DtoView, TaskDTO, spec_into_domain};
use crate::error::{AppError, DomainError};
use crate::text::{
    all_digits, contains_ascii_alnum, digit_val, digits_val, find_char, find_from, is_ascii_alnum_char,
    is_ascii_letter, is_ascii_letter_char, is_digit, is_digit_char, parse_digits_u32, push_char,
};
use vstd::prelude::*;
use vstd::string::StrSliceExecFns;

verus! {

// ------------------------------------------------------------- policies
/// The identifier-validation policy of an ingestion pass: strict
/// unique-identifier parsing, or any non-empty string taken verbatim.
#[derive(Debug, Clone, Copy, PartialEq, Eq, Structural)]
pub enum IdPolicy {
    Strict,
    Permissive,
}

/// The batch-failure policy of an ingestion pass: fail the whole batch on
/// the first bad record, or skip bad records and keep the rest.  The
/// atomic policy is the default choice; the lenient one is an opt-in.
#[derive(Debug, Clone, Copy, PartialEq, Eq, Structural)]
pub enum BatchPolicy {
    Atomic,
    Lenient,
}

/// What `uuid::Uuid::parse_str` accepts: a function of the characters
/// alone.
pub uninterp spec fn uuid_accepts(s: Seq<char>) -> bool;

/// Relies on `uuid::Uuid::parse_str`: whether a string parses as a
/// well-formed universally-unique identifier depends on the string alone.
#[verifier::external_body]
fn uuid_parse_ok(raw: &str) -> (r: bool)
    ensures
        r == uuid_accepts(raw@),
{
    uuid::Uuid::parse_str(raw).is_ok()
}

/// When a raw identifier is accepted under a policy.
pub open spec fn id_ok(raw: Seq<char>, policy: IdPolicy) -> bool {
    match policy {
        IdPolicy::Strict => uuid_accepts(raw),
        IdPolicy::Permissive => raw.len() > 0,
    }
}

/// Validates a raw identifier under the chosen policy and takes it
/// verbatim on success.
pub fn validate_id(raw: &str, policy: IdPolicy) -> (r: Result<TaskID, DomainError>)
    ensures
        r is Ok <==> id_ok(raw@, policy),
        r matches Ok(t) ==> t@ == raw@,
        r matches Err(e) ==> e == DomainError::UnvalidParsingUuid,
{
    let ok = match policy {
        IdPolicy::Strict => uuid_parse_ok(raw),
        IdPolicy::Permissive => raw.unicode_len() > 0,
    };
    if ok {
        TaskID::from_service(raw)
    } else {
        Err(DomainError::UnvalidParsingUuid)
    }
}

/// The permissive identifier service: any raw string is taken verbatim.
#[derive(Debug, Clone, PartialEq, Eq)]
pub struct IDService {
    id: String,
}

impl View for IDService {
    type V = Seq<char>;

    closed spec fn view(&self) -> Seq<char> {
        self.id@
    }
}

impl IDService {
    pub fn from_raw(raw_id: &str) -> (r: IDService)
        ensures
            r@ == raw_id@,
    {
        IDService { id: raw_id.to_owned() }
    }
}

// ------------------------------------------------------------- normalization
/// The non-ASCII time separator that some records use in place of a
/// colon.
pub const DIVISION_SEP: char = '\u{2236}';

/// `s` with every occurrence of the non-ASCII time separator replaced by
/// an ASCII colon.
pub open spec fn normalize_spec(s: Seq<char>) -> Seq<char> {
    Seq::new(
        s.len(),
        |i: int|
            if s[i] == DIVISION_SEP {
                ':'
            } else {
                s[i]
            },
    )
}

pub proof fn lemma_normalize_idempotent(s: Seq<char>)
    ensures
        normalize_spec(normalize_spec(s)) == normalize_spec(s),
{
    assert(normalize_spec(normalize_spec(s)) =~= normalize_spec(s));
}

/// A sequence without the non-ASCII separator is already normalized.
pub proof fn lemma_normalize_noop(t: Seq<char>)
    requires
        forall|i: int| 0 <= i < t.len() ==> t[i] != DIVISION_SEP,
    ensures
        normalize_spec(t) == t,
{
    assert(normalize_spec(t) =~= t);
}

// ------------------------------------------------------------- duration token
/// A duration component: a non-empty run of decimal digits whose value
/// fits the machine bound.
pub open spec fn spec_parse_component(t: Seq<char>) -> Option<int> {
    if t.len() > 0 && all_digits(t) && digits_val(t) <= u32::MAX {
        Some(digits_val(t))
    } else {
        None
    }
}

/// Parsing an already-normalized `hours:minutes:seconds` token into whole
/// seconds: exactly three colon-separated components, each a valid
/// duration component.
pub open spec fn spec_parse_duration_norm(n: Seq<char>) -> Option<int> {
    let c1 = find_from(n, ':', 0);
    let c2 = find_from(n, ':', c1 + 1);
    let c3 = find_from(n, ':', c2 + 1);
    if c1 == n.len() || c2 == n.len() || c3 != n.len() {
        None
    } else {
        match (spec_parse_component(n.subrange(0, c1)), spec_parse_component(
            n.subrange(c1 + 1, c2),
        ), spec_parse_component(n.subrange(c2 + 1, n.len() as int))) {
            (Some(h), Some(m), Some(s)) => Some(h * 3600 + m * 60 + s),
            _ => None,
        }
    }
}

/// Parsing a raw `hours:minutes:seconds` token: the separator is
/// normalized first.
pub open spec fn spec_parse_duration(s: Seq<char>) -> Option<int> {
    spec_parse_duration_norm(normalize_spec(s))
}

// ------------------------------------------------------------- shape
/// The two-digit number at positions `i`, `i + 1`.
pub open spec fn dd_val(n: Seq<char>, i: int) -> int {
    digit_val(n[i]) * 10 + digit_val(n[i + 1])
}

/// An eight-character `HH:MM:SS` token at position `i`.
pub open spec fn clock_token_shape(n: Seq<char>, i: int) -> bool {
    &&& is_digit_char(n[i]) && is_digit_char(n[i + 1])
    &&& n[i + 2] == ':'
    &&& is_digit_char(n[i + 3]) && is_digit_char(n[i + 4])
    &&& n[i + 5] == ':'
    &&& is_digit_char(n[i + 6]) && is_digit_char(n[i + 7])
}

/// The clock value of an `HH:MM:SS` token at position `i`.
pub open spec fn clock_token_val(n: Seq<char>, i: int) -> ClockView {
    ClockView { h: dd_val(n, i), m: dd_val(n, i + 3), s: dd_val(n, i + 6) }
}

/// The fixed shape of a normalized composite date/time field: the
/// effective-duration token (any text up to the first line break), then
/// day letters, `", "`, a `DD/MM` date, a space, and two clock tokens
/// joined by a spaced en dash (`\u{2013}`).
pub open spec fn timedate_shape(n: Seq<char>) -> bool {
    let k = find_from(n, '\n', 0);
    &&& k < n.len()
    &&& n.len() == k + 31
    &&& is_ascii_letter_char(n[k + 1]) && is_ascii_letter_char(n[k + 2]) && is_ascii_letter_char(
        n[k + 3],
    )
    &&& n[k + 4] == ',' && n[k + 5] == ' '
    &&& is_digit_char(n[k + 6]) && is_digit_char(n[k + 7]) && n[k + 8] == '/' && is_digit_char(
        n[k + 9],
    ) && is_digit_char(n[k + 10])
    &&& n[k + 11] == ' '
    &&& clock_token_shape(n, k + 12)
    &&& n[k + 20] == ' ' && n[k + 21] == '\u{2013}' && n[k + 22] == ' '
    &&& clock_token_shape(n, k + 23)
}

/// The whole extraction, as a function of the raw text: the checks, the
/// error met first, and the extracted fields on success.
pub open spec fn spec_timechart(raw: Seq<char>) -> Result<TimeRecView, AppError> {
    if raw.len() == 0 || !(exists|i: int| 0 <= i < raw.len() && is_ascii_alnum_char(raw[i])) {
        Err(AppError::UnvalidDateTimeFormat)
    } else {
        let n = normalize_spec(raw);
        let k = find_from(n, '\n', 0);
        if !timedate_shape(n) {
            Err(AppError::UnvalidFormat)
        } else {
            let start = clock_token_val(n, k + 12);
            let end = clock_token_val(n, k + 23);
            if !(start.wf() && end.wf()) {
                Err(AppError::UnvalidFormat)
            } else if end.secs() <= start.secs() {
                Err(AppError::DomainError(DomainError::UnvalidTimeRange))
            } else {
                let eff = spec_parse_duration_norm(n.subrange(0, k));
                let total = crate::domain::spec_total_secs(start, end);
                Ok(
                    TimeRecView {
                        effective_duration: eff,
                        day_week: n.subrange(k + 1, k + 4),
                        date: n.subrange(k + 6, k + 11),
                        starting_time: start,
                        ending_time: end,
                        total_time: total,
                        break_time: crate::domain::spec_break_secs(eff, total),
                    },
                )
            }
        }
    }
}

// ------------------------------------------------------------- TimeService
/// The time-range extractor.
pub struct TimeService {}

/// Reads the `HH:MM:SS` token at position `i` as a 24-hour clock time.
fn read_clock(n: &str, i: usize) -> (r: Option<ClockTime>)
    requires
        i + 8 <= n@.len(),
        i + 8 <= usize::MAX,
    ensures
        r is Some <==> (clock_token_shape(n@, i as int) && clock_token_val(n@, i as int).wf()),
        r matches Some(c) ==> c@ == clock_token_val(n@, i as int) && c.wf(),
{
    let c0 = n.get_char(i);
    let c1 = n.get_char(i + 1);
    let c2 = n.get_char(i + 2);
    let c3 = n.get_char(i + 3);
    let c4 = n.get_char(i + 4);
    let c5 = n.get_char(i + 5);
    let c6 = n.get_char(i + 6);
    let c7 = n.get_char(i + 7);
    if !(is_digit(c0) && is_digit(c1) && c2 == ':' && is_digit(c3) && is_digit(c4) && c5 == ':'
        && is_digit(c6) && is_digit(c7)) {
        return None;
    }
    let h: u32 = (c0 as u32 - 48) * 10 + (c1 as u32 - 48);
    let m: u32 = (c3 as u32 - 48) * 10 + (c4 as u32 - 48);
    let s: u32 = (c6 as u32 - 48) * 10 + (c7 as u32 - 48);
    if h >= 24 || m >= 60 || s >= 60 {
        return None;
    }
    Some(ClockTime::new(h as u8, m as u8, s as u8))
}

impl TimeService {
    /// Replaces the non-ASCII time separator with an ASCII colon,
    /// uniformly, before any time parsing.
    pub fn normalize_time_chars(input: &str) -> (r: String)
        ensures
            r@ == normalize_spec(input@),
    {
        let n = input.unicode_len();
        let mut out = String::new();
        let mut i: usize = 0;
        while i < n
            invariant
                n == input@.len(),
                i <= n,
                out@ == normalize_spec(input@).subrange(0, i as int),
            decreases n - i,
        {
            let c = input.get_char(i);
            let mapped: char = if c == DIVISION_SEP {
                ':'
            } else {
                c
            };
            push_char(&mut out, mapped);
            proof {
                assert(normalize_spec(input@).subrange(0, i + 1) =~= normalize_spec(
                    input@,
                ).subrange(0, i as int).push(normalize_spec(input@)[i as int]));
            }
            i += 1;
        }
        proof {
            assert(normalize_spec(input@).subrange(0, n as int) =~= normalize_spec(input@));
        }
        out
    }

    /// Parses an `hours:minutes:seconds` token into whole seconds,
    /// normalizing the separator first.  A malformed token (wrong field
    /// count, non-numeric or oversized component) yields `None`.
    pub fn parse_duration_from_hsm(input: &str) -> (r: Option<i64>)
        ensures
            r is Some <==> spec_parse_duration(input@) is Some,
            r matches Some(v) ==> Some(v as int) == spec_parse_duration(input@) && v >= 0,
    {
        let normalized = TimeService::normalize_time_chars(input);
        let n = normalized.as_str();
        let len = n.unicode_len();
        let c1 = find_char(n, ':', 0);
        if c1 == len {
            return None;
        }
        let c2 = find_char(n, ':', c1 + 1);
        if c2 == len {
            return None;
        }
        let c3 = find_char(n, ':', c2 + 1);
        if c3 != len {
            return None;
        }
        let h = match parse_digits_u32(n, 0, c1) {
            Some(v) => v,
            None => {
                return None;
            },
        };
        let m = match parse_digits_u32(n, c1 + 1, c2) {
            Some(v) => v,
            None => {
                return None;
            },
        };
        let s = match parse_digits_u32(n, c2 + 1, len) {
            Some(v) => v,
            None => {
                return None;
            },
        };
        let total: i64 = h as i64 * 3600 + m as i64 * 60 + s as i64;
        Some(total)
    }

    /// Extracts day, date, start and end clocks and the optional
    /// effective duration from the composite date/time field, and builds
    /// the derived time record.
    pub fn timechart_from_raw(raw_datetime: &str) -> (r: Result<TimeRecords, AppError>)
        ensures
            r is Ok <==> spec_timechart(raw_datetime@) is Ok,
            r matches Ok(t) ==> Ok::<TimeRecView, AppError>(t@) == spec_timechart(raw_datetime@)
                && t@.wf(),
            r matches Err(e) ==> Err::<TimeRecView, AppError>(e) == spec_timechart(raw_datetime@),
    {
        if raw_datetime.unicode_len() == 0 {
            return Err(AppError::UnvalidDateTimeFormat);
        }
        if !contains_ascii_alnum(raw_datetime) {
            return Err(AppError::UnvalidDateTimeFormat);
        }
        let normalized = TimeService::normalize_time_chars(raw_datetime);
        let n = normalized.as_str();
        let len = n.unicode_len();
        let k = find_char(n, '\n', 0);
        if k == len || len - k != 31 {
            return Err(AppError::UnvalidFormat);
        }
        if !(is_ascii_letter(n.get_char(k + 1)) && is_ascii_letter(n.get_char(k + 2))
            && is_ascii_letter(n.get_char(k + 3))) {
            return Err(AppError::UnvalidFormat);
        }
        if !(n.get_char(k + 4) == ',' && n.get_char(k + 5) == ' ') {
            return Err(AppError::UnvalidFormat);
        }
        if !(is_digit(n.get_char(k + 6)) && is_digit(n.get_char(k + 7)) && n.get_char(k + 8) == '/'
            && is_digit(n.get_char(k + 9)) && is_digit(n.get_char(k + 10))) {
            return Err(AppError::UnvalidFormat);
        }
        if !(n.get_char(k + 11) == ' ' && n.get_char(k + 20) == ' ' && n.get_char(k + 21)
            == '\u{2013}' && n.get_char(k + 22) == ' ') {
            return Err(AppError::UnvalidFormat);
        }
        let starting_time = match read_clock(n, k + 12) {
            Some(c) => c,
            None => {
                return Err(AppError::UnvalidFormat);
            },
        };
        let ending_time = match read_clock(n, k + 23) {
            Some(c) => c,
            None => {
                return Err(AppError::UnvalidFormat);
            },
        };
        assert(timedate_shape(n@));
        let token = n.substring_char(0, k);
        proof {
            assert(forall|i: int| 0 <= i < n@.len() ==> n@[i] != DIVISION_SEP);
            lemma_normalize_noop(token@);
        }
        let effective_duration = TimeService::parse_duration_from_hsm(token);
        let day_week = n.substring_char(k + 1, k + 4).to_owned();
        let date = n.substring_char(k + 6, k + 11).to_owned();
        match TimeRecords::new(effective_duration, day_week, date, starting_time, ending_time) {
            Ok(t) => Ok(t),
            Err(e) => Err(AppError::DomainError(e)),
        }
    }
}

// ------------------------------------------------------------- catalog builder
/// Assembles every record in order and stops at the first error; on
/// success, the assembled tasks in document order.
pub open spec fn spec_assemble_all(ds: Seq<DtoView>, p: IdPolicy) -> Result<
    Seq<TaskView>,
    AppError,
>
    decreases ds.len(),
{
    if ds.len() == 0 {
        Ok(Seq::empty())
    } else {
        match spec_into_domain(ds[0], p) {
            Err(e) => Err(e),
            Ok(t) => match spec_assemble_all(ds.drop_first(), p) {
                Err(e) => Err(e),
                Ok(ts) => Ok(seq![t] + ts),
            },
        }
    }
}

/// Assembles the records that validate, skipping the others.
pub open spec fn spec_assemble_lenient(ds: Seq<DtoView>, p: IdPolicy) -> Seq<TaskView>
    decreases ds.len(),
{
    if ds.len() == 0 {
        Seq::empty()
    } else {
        let rest = spec_assemble_lenient(ds.drop_first(), p);
        match spec_into_domain(ds[0], p) {
            Ok(t) => seq![t] + rest,
            Err(e) => rest,
        }
    }
}

/// The whole ingestion pass as a function of the document text and the
/// two policies: the catalog contents on success, the first error met
/// otherwise.
pub open spec fn spec_build(
    doc: Seq<char>,
    id_policy: IdPolicy,
    batch_policy: BatchPolicy,
) -> Result<Seq<TaskView>, AppError> {
    if doc.len() == 0 {
        Err(AppError::EmptyFile)
    } else {
        match parse_doc(doc) {
            None => Err(AppError::SerdeError),
            Some(ds) => match batch_policy {
                BatchPolicy::Atomic => match spec_assemble_all(ds, id_policy) {
                    Err(e) => Err(e),
                    Ok(ts) => Ok(spec_insert_all(Seq::empty(), ts)),
                },
                BatchPolicy::Lenient => Ok(
                    spec_insert_all(Seq::empty(), spec_assemble_lenient(ds, id_policy)),
                ),
            },
        }
    }
}

proof fn lemma_assemble_all_snoc(ds: Seq<DtoView>, d: DtoView, p: IdPolicy)
    ensures
        spec_assemble_all(ds, p) is Err ==> spec_assemble_all(ds.push(d), p) == spec_assemble_all(
            ds,
            p,
        ),
        spec_assemble_all(ds, p) is Ok && spec_into_domain(d, p) is Err ==> spec_assemble_all(
            ds.push(d),
            p,
        ) == Err::<Seq<TaskView>, AppError>(spec_into_domain(d, p)->Err_0),
        spec_assemble_all(ds, p) is Ok && spec_into_domain(d, p) is Ok ==> spec_assemble_all(
            ds.push(d),
            p,
        ) == Ok::<Seq<TaskView>, AppError>(
            spec_assemble_all(ds, p)->Ok_0.push(spec_into_domain(d, p)->Ok_0),
        ),
    decreases ds.len(),
{
    let dsp = ds.push(d);
    if ds.len() == 0 {
        assert(dsp[0] == d);
        assert(dsp.drop_first() =~= Seq::<DtoView>::empty());
        assert(spec_assemble_all(ds, p) == Ok::<Seq<TaskView>, AppError>(Seq::empty()));
        assert(spec_assemble_all(dsp.drop_first(), p) == Ok::<Seq<TaskView>, AppError>(
            Seq::empty(),
        ));
        if spec_into_domain(d, p) is Ok {
            let t = spec_into_domain(d, p)->Ok_0;
            assert(seq![t] + Seq::<TaskView>::empty() =~= Seq::<TaskView>::empty().push(t));
        }
    } else {
        lemma_assemble_all_snoc(ds.drop_first(), d, p);
        assert(dsp[0] == ds[0]);
        assert(dsp.drop_first() =~= ds.drop_first().push(d));
        if spec_into_domain(ds[0], p) is Ok && spec_assemble_all(ds.drop_first(), p) is Ok
            && spec_into_domain(d, p) is Ok {
            let t0 = spec_into_domain(ds[0], p)->Ok_0;
            let ts = spec_assemble_all(ds.drop_first(), p)->Ok_0;
            let t = spec_into_domain(d, p)->Ok_0;
            assert(seq![t0] + ts.push(t) =~= (seq![t0] + ts).push(t));
        }
    }
}

proof fn lemma_lenient_snoc(ds: Seq<DtoView>, d: DtoView, p: IdPolicy)
    ensures
        spec_into_domain(d, p) is Ok ==> spec_assemble_lenient(ds.push(d), p)
            == spec_assemble_lenient(ds, p).push(spec_into_domain(d, p)->Ok_0),
        spec_into_domain(d, p) is Err ==> spec_assemble_lenient(ds.push(d), p)
            == spec_assemble_lenient(ds, p),
    decreases ds.len(),
{
    let dsp = ds.push(d);
    if ds.len() == 0 {
        assert(dsp[0] == d);
        assert(dsp.drop_first() =~= Seq::<DtoView>::empty());
        assert(spec_assemble_lenient(dsp.drop_first(), p) == Seq::<TaskView>::empty());
        if spec_into_domain(d, p) is Ok {
            let t = spec_into_domain(d, p)->Ok_0;
            assert(seq![t] + Seq::<TaskView>::empty() =~= Seq::<TaskView>::empty().push(t));
        }
    } else {
        lemma_lenient_snoc(ds.drop_first(), d, p);
        assert(dsp[0] == ds[0]);
        assert(dsp.drop_first() =~= ds.drop_first().push(d));
        if spec_into_domain(ds[0], p) is Ok && spec_into_domain(d, p) is Ok {
            let t0 = spec_into_domain(ds[0], p)->Ok_0;
            let t = spec_into_domain(d, p)->Ok_0;
            let rest = spec_assemble_lenient(ds.drop_first(), p);
            assert(seq![t0] + rest.push(t) =~= (seq![t0] + rest).push(t));
        }
    }
}

proof fn lemma_assemble_all_err_at(ds: Seq<DtoView>, i: int, p: IdPolicy)
    requires
        0 <= i < ds.len(),
        spec_assemble_all(ds.subrange(0, i), p) is Ok,
        spec_into_domain(ds[i], p) is Err,
    ensures
        spec_assemble_all(ds, p) == Err::<Seq<TaskView>, AppError>(
            spec_into_domain(ds[i], p)->Err_0,
        ),
    decreases i,
{
    if i == 0 {
    } else {
        let pre = ds.subrange(0, i);
        assert(pre[0] == ds[0]);
        assert(pre.drop_first() =~= ds.drop_first().subrange(0, i - 1));
        assert(ds.drop_first()[i - 1] == ds[i]);
        lemma_assemble_all_err_at(ds.drop_first(), i - 1, p);
    }
}

/// Runs the whole ingestion pass on a raw document under the chosen
/// policies: deserializes it, assembles every record, and materializes
/// the catalog with first-write-wins insertion under the identifier.
/// Under the atomic batch policy the first bad record fails the whole
/// call and no catalog is returned; under the lenient policy bad records
/// are skipped.
pub fn build_catalog(document: &str, id_policy: IdPolicy, batch_policy: BatchPolicy) -> (r: Result<
    FileContent,
    AppError,
>)
    ensures
        r is Ok <==> spec_build(document@, id_policy, batch_policy) is Ok,
        r matches Ok(c) ==> Ok::<Seq<TaskView>, AppError>(c@) == spec_build(
            document@,
            id_policy,
            batch_policy,
        ),
        r matches Err(e) ==> Err::<Seq<TaskView>, AppError>(e) == spec_build(
            document@,
            id_policy,
            batch_policy,
        ),
        r matches Ok(c) ==> ids_unique(c@),
{
    if document.unicode_len() == 0 {
        return Err(AppError::EmptyFile);
    }
    let dtos = match parse_document(document) {
        Some(v) => v,
        None => {
            return Err(AppError::SerdeError);
        },
    };
    let ghost ds = dto_views(dtos@);
    // an empty catalog always constructs; the error arm is unreachable
    let mut content = match FileContent::new() {
        Ok(c) => c,
        Err(_) => {
            return Err(AppError::SerdeError);
        },
    };
    let ghost mut assembled: Seq<TaskView> = Seq::empty();
    proof {
        assert(ds.subrange(0, 0) =~= Seq::<DtoView>::empty());
    }
    let n = dtos.len();
    let mut i: usize = 0;
    while i < n
        invariant
            n == dtos@.len(),
            i <= n,
            ds == dto_views(dtos@),
            parse_doc(document@) == Some(ds),
            document@.len() > 0,
            batch_policy == BatchPolicy::Atomic ==> spec_assemble_all(
                ds.subrange(0, i as int),
                id_policy,
            ) == Ok::<Seq<TaskView>, AppError>(assembled),
            batch_policy == BatchPolicy::Lenient ==> assembled == spec_assemble_lenient(
                ds.subrange(0, i as int),
                id_policy,
            ),
            content@ == spec_insert_all(Seq::empty(), assembled),
        decreases n - i,
    {
        let dto = &dtos[i];
        proof {
            assert(ds[i as int] == dtos@[i as int]@);
            assert(ds.subrange(0, i + 1) =~= ds.subrange(0, i as int).push(ds[i as int]));
        }
        match dto.into_domain(id_policy) {
            Ok(task) => {
                let ghost tv = task@;
                proof {
                    lemma_insert_all_snoc(Seq::empty(), assembled, tv);
                    if batch_policy == BatchPolicy::Atomic {
                        lemma_assemble_all_snoc(ds.subrange(0, i as int), ds[i as int], id_policy);
                    } else {
                        lemma_lenient_snoc(ds.subrange(0, i as int), ds[i as int], id_policy);
                    }
                    assembled = assembled.push(tv);
                }
                content.insert(task);
            },
            Err(e) => {
                match batch_policy {
                    BatchPolicy::Atomic => {
                        proof {
                            lemma_assemble_all_err_at(ds, i as int, id_policy);
                        }
                        return Err(e);
                    },
                    BatchPolicy::Lenient => {
                        proof {
                            lemma_lenient_snoc(ds.subrange(0, i as int), ds[i as int], id_policy);
                        }
                    },
                }
            },
        }
        i += 1;
    }
    proof {
        assert(ds.subrange(0, n as int) =~= ds);
        lemma_insert_all_unique(Seq::empty(), assembled);
    }
    Ok(content)
}

} // verus!
