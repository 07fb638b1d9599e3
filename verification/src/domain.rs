//! The validated domain values: identifiers, titles, tags, time records,
//! tasks and the catalog that holds them.
//!
//! Times are modeled as plain wall-clock values to second precision and
//! durations as signed whole seconds, so that every derived quantity
//! (total elapsed time across midnight, break time) is computed and
//! proved here.
//!
//! Time-range policy: a record is admitted only when the raw end clock is
//! strictly after the raw start clock (`UnvalidTimeRange` otherwise);
//! [`TimeRecords::calculate_total_time`] itself is total and treats an
//! end clock numerically before the start clock as crossing midnight.

use crate::error::DomainError;
use crate::text::{
    contains_alpha, is_alpha, is_ascii_punct_char, all_ascii_punct, lower_of, lowercase, trim_spec,
    trim_str,
};
use vstd::prelude::*;
use vstd::string::StrSliceExecFns;

verus! {

/// Seconds in one day; the wraparound point for overnight time ranges.
pub const SECONDS_PER_DAY: u32 = 86400;

// ------------------------------------------------------------- clock times
/// Mathematical model of a 24-hour wall-clock time.
pub ghost struct ClockView {
    pub h: int,
    pub m: int,
    pub s: int,
}

impl ClockView {
    pub open spec fn wf(self) -> bool {
        0 <= self.h < 24 && 0 <= self.m < 60 && 0 <= self.s < 60
    }

    /// Seconds elapsed since midnight.
    pub open spec fn secs(self) -> int {
        self.h * 3600 + self.m * 60 + self.s
    }
}

/// A wall-clock time of day, to second precision, in 24-hour form.
#[derive(Debug, Hash, Clone, Copy, PartialEq, Eq, Structural)]
pub struct ClockTime {
    pub hours: u8,
    pub minutes: u8,
    pub seconds: u8,
}

impl View for ClockTime {
    type V = ClockView;

    open spec fn view(&self) -> ClockView {
        ClockView { h: self.hours as int, m: self.minutes as int, s: self.seconds as int }
    }
}

impl ClockTime {
    pub open spec fn wf(self) -> bool {
        self@.wf()
    }

    pub fn new(hours: u8, minutes: u8, seconds: u8) -> (r: ClockTime)
        requires
            hours < 24,
            minutes < 60,
            seconds < 60,
        ensures
            r@ == (ClockView { h: hours as int, m: minutes as int, s: seconds as int }),
            r.wf(),
    {
        ClockTime { hours, minutes, seconds }
    }

    /// Seconds elapsed since midnight.
    pub fn num_seconds_from_midnight(&self) -> (r: u32)
        requires
            self.wf(),
        ensures
            r == self@.secs(),
            r < SECONDS_PER_DAY,
    {
        self.hours as u32 * 3600 + self.minutes as u32 * 60 + self.seconds as u32
    }
}

// ------------------------------------------------------------- durations
/// Elapsed seconds from `start` to `end`; an end clock numerically before
/// the start clock is read as crossing midnight into the next day.
pub open spec fn spec_total_secs(start: ClockView, end: ClockView) -> int {
    if end.secs() >= start.secs() {
        end.secs() - start.secs()
    } else {
        86400 - start.secs() + end.secs()
    }
}

/// Break seconds: total minus the externally reported effective duration,
/// or the total itself when no effective duration is present.
pub open spec fn spec_break_secs(effective: Option<int>, total: int) -> int {
    match effective {
        Some(e) => total - e,
        None => total,
    }
}

/// The model of an optional duration held as whole seconds.
pub open spec fn opt_secs_view(o: Option<i64>) -> Option<int> {
    match o {
        Some(v) => Some(v as int),
        None => None,
    }
}

// ------------------------------------------------------------- TimeRecords
/// Mathematical model of a derived time-accounting record.
pub ghost struct TimeRecView {
    pub effective_duration: Option<int>,
    pub day_week: Seq<char>,
    pub date: Seq<char>,
    pub starting_time: ClockView,
    pub ending_time: ClockView,
    pub total_time: int,
    pub break_time: int,
}

impl TimeRecView {
    /// The construction-time invariant: the raw end clock is strictly
    /// after the raw start clock, and both derived durations agree with
    /// the recomputation from the clocks.
    pub open spec fn wf(self) -> bool {
        &&& self.starting_time.wf()
        &&& self.ending_time.wf()
        &&& self.ending_time.secs() > self.starting_time.secs()
        &&& self.total_time == spec_total_secs(self.starting_time, self.ending_time)
        &&& self.break_time == spec_break_secs(self.effective_duration, self.total_time)
        &&& (self.effective_duration matches Some(e) ==> e >= 0)
    }
}

/// The derived time-accounting record of one task.  Durations are whole
/// seconds; `total_time` and `break_time` are always recomputed from the
/// clocks and never accepted as given.
#[derive(Debug, Hash, Clone, PartialEq, Eq)]
pub struct TimeRecords {
    pub effective_duration: Option<i64>,
    pub day_week: String,
    pub date: String,
    pub starting_time: ClockTime,
    pub ending_time: ClockTime,
    pub total_time: i64,
    pub break_time: i64,
}

impl View for TimeRecords {
    type V = TimeRecView;

    open spec fn view(&self) -> TimeRecView {
        TimeRecView {
            effective_duration: opt_secs_view(self.effective_duration),
            day_week: self.day_week@,
            date: self.date@,
            starting_time: self.starting_time@,
            ending_time: self.ending_time@,
            total_time: self.total_time as int,
            break_time: self.break_time as int,
        }
    }
}

impl TimeRecords {
    /// Builds a record from its extracted fields, recomputing both derived
    /// durations, and rejects a range whose end clock is not strictly
    /// after its start clock.
    pub fn new(
        effective_duration: Option<i64>,
        day_week: String,
        date: String,
        starting_time: ClockTime,
        ending_time: ClockTime,
    ) -> (r: Result<TimeRecords, DomainError>)
        requires
            starting_time.wf(),
            ending_time.wf(),
            effective_duration matches Some(e) ==> e >= 0,
        ensures
            r is Ok <==> ending_time@.secs() > starting_time@.secs(),
            r matches Ok(t) ==> t@ == (TimeRecView {
                effective_duration: opt_secs_view(effective_duration),
                day_week: day_week@,
                date: date@,
                starting_time: starting_time@,
                ending_time: ending_time@,
                total_time: spec_total_secs(starting_time@, ending_time@),
                break_time: spec_break_secs(
                    opt_secs_view(effective_duration),
                    spec_total_secs(starting_time@, ending_time@),
                ),
            }),
            r matches Ok(t) ==> t@.wf(),
            r matches Err(e) ==> e == DomainError::UnvalidTimeRange,
    {
        if ending_time.num_seconds_from_midnight() <= starting_time.num_seconds_from_midnight() {
            return Err(DomainError::UnvalidTimeRange);
        }
        let total_time = TimeRecords::calculate_total_time(starting_time, ending_time);
        let break_time = TimeRecords::calculate_break_time(effective_duration, total_time);
        Ok(
            TimeRecords {
                effective_duration,
                day_week,
                date,
                starting_time,
                ending_time,
                total_time,
                break_time,
            },
        )
    }

    /// Elapsed seconds from `start` to `end`, treating an end clock
    /// numerically before the start clock as crossing midnight.
    pub fn calculate_total_time(start: ClockTime, end: ClockTime) -> (r: i64)
        requires
            start.wf(),
            end.wf(),
        ensures
            r == spec_total_secs(start@, end@),
            0 <= r < 86400,
    {
        let ss: u32 = start.num_seconds_from_midnight();
        let es: u32 = end.num_seconds_from_midnight();
        if es >= ss {
            (es - ss) as i64
        } else {
            (SECONDS_PER_DAY - ss + es) as i64
        }
    }

    /// Total minus effective duration when one is present, the total
    /// itself otherwise.  A negative result is not rejected here.
    pub fn calculate_break_time(effective: Option<i64>, total: i64) -> (r: i64)
        requires
            effective matches Some(e) ==> i64::MIN <= total - e <= i64::MAX,
        ensures
            r == spec_break_secs(opt_secs_view(effective), total as int),
            effective is None ==> r == total,
    {
        match effective {
            Some(duration) => total - duration,
            None => total,
        }
    }
}

// ------------------------------------------------------------- TaskID
/// An opaque task identifier; uniqueness is enforced by catalog
/// insertion, not by the type itself.
#[derive(Debug, Hash, Clone, PartialEq, Eq)]
pub struct TaskID(String);

impl View for TaskID {
    type V = Seq<char>;

    closed spec fn view(&self) -> Seq<char> {
        self.0@
    }
}

impl TaskID {
    pub fn from_service(id: &str) -> (r: Result<TaskID, DomainError>)
        ensures
            r is Ok,
            r matches Ok(t) ==> t@ == id@,
    {
        Ok(TaskID(id.to_owned()))
    }

    pub fn as_str(&self) -> (r: String)
        ensures
            r@ == self@,
    {
        self.0.clone()
    }
}

// ------------------------------------------------------------- TaskTitle
/// When a raw title is accepted: it is non-empty, holds an alphabetic
/// character, and its trimmed, lower-cased text is 3 to 15 characters.
pub open spec fn title_ok(raw: Seq<char>) -> bool {
    &&& raw.len() > 0
    &&& exists|i: int| 0 <= i < raw.len() && is_alpha(raw[i])
    &&& 3 <= lower_of(trim_spec(raw)).len() <= 15
}

/// A normalized (trimmed, lower-cased) task title.
#[derive(Debug, Hash, Clone, PartialEq, Eq)]
pub struct TaskTitle {
    title: String,
}

impl View for TaskTitle {
    type V = Seq<char>;

    closed spec fn view(&self) -> Seq<char> {
        self.title@
    }
}

impl TaskTitle {
    /// Validates a raw title and normalizes it by trimming and
    /// lower-casing; the length bound is checked on the normalized text.
    pub fn new(raw_title: &str) -> (r: Result<TaskTitle, DomainError>)
        ensures
            r is Ok <==> title_ok(raw_title@),
            r matches Ok(t) ==> t@ == lower_of(trim_spec(raw_title@)),
            r matches Err(e) ==> e == DomainError::UnvalidTaskTitleFormat,
    {
        if raw_title.unicode_len() == 0 {
            return Err(DomainError::UnvalidTaskTitleFormat);
        }
        if !contains_alpha(raw_title) {
            return Err(DomainError::UnvalidTaskTitleFormat);
        }
        let trimmed = trim_str(raw_title);
        let title = lowercase(trimmed.as_str());
        let n = title.as_str().unicode_len();
        if n < 3 || n > 15 {
            return Err(DomainError::UnvalidTaskTitleFormat);
        }
        Ok(TaskTitle { title })
    }

    pub fn as_str(&self) -> (r: String)
        ensures
            r@ == self@,
    {
        self.title.clone()
    }
}

// ------------------------------------------------------------- TaskTag
/// When a raw tag is accepted: it is non-empty, holds an alphabetic
/// character, and does not consist entirely of ASCII punctuation.
pub open spec fn tag_ok(raw: Seq<char>) -> bool {
    &&& raw.len() > 0
    &&& exists|i: int| 0 <= i < raw.len() && is_alpha(raw[i])
    &&& !(forall|i: int| 0 <= i < raw.len() ==> is_ascii_punct_char(raw[i]))
}

/// A normalized (trimmed, lower-cased) optional task tag.
#[derive(Debug, Hash, Clone, PartialEq, Eq)]
pub struct TaskTag(Option<String>);

impl View for TaskTag {
    type V = Option<Seq<char>>;

    closed spec fn view(&self) -> Option<Seq<char>> {
        match self.0 {
            Some(s) => Some(s@),
            None => None,
        }
    }
}

impl TaskTag {
    /// Validates a raw tag and normalizes it by trimming and
    /// lower-casing, wrapping the result as present.
    pub fn from_raw(raw_tag: &str) -> (r: Result<TaskTag, DomainError>)
        ensures
            r is Ok <==> tag_ok(raw_tag@),
            r matches Ok(t) ==> t@ == Some(lower_of(trim_spec(raw_tag@))),
            r matches Err(e) ==> e == DomainError::UnvalidTaskTagFormat,
    {
        if raw_tag.unicode_len() == 0 {
            return Err(DomainError::UnvalidTaskTagFormat);
        }
        if !contains_alpha(raw_tag) {
            return Err(DomainError::UnvalidTaskTagFormat);
        }
        if all_ascii_punct(raw_tag) {
            return Err(DomainError::UnvalidTaskTagFormat);
        }
        let trimmed = trim_str(raw_tag);
        let tag = lowercase(trimmed.as_str());
        Ok(TaskTag(Some(tag)))
    }

    /// The normalized tag text, when one is present.
    pub fn value(&self) -> (r: Option<String>)
        ensures
            r is Some <==> self@ is Some,
            r matches Some(s) ==> self@ == Some(s@),
    {
        match &self.0 {
            Some(s) => Some(s.clone()),
            None => None,
        }
    }
}

// ------------------------------------------------------------- Task
/// Mathematical model of a validated task.
pub ghost struct TaskView {
    pub id: Seq<char>,
    pub title: Seq<char>,
    pub timeline: TimeRecView,
    pub tag: Option<Seq<char>>,
}

/// The validated unit of work, immutable once constructed; identity is
/// the identifier.
#[derive(Debug, Hash, Clone, PartialEq, Eq)]
pub struct Task {
    pub id: TaskID,
    pub title: TaskTitle,
    pub timeline: TimeRecords,
    pub tag: TaskTag,
}

impl View for Task {
    type V = TaskView;

    open spec fn view(&self) -> TaskView {
        TaskView { id: self.id@, title: self.title@, timeline: self.timeline@, tag: self.tag@ }
    }
}

// ------------------------------------------------------------- FileContent
/// Whether some entry of `s` carries the identifier `id`.
pub open spec fn spec_contains_id(s: Seq<TaskView>, id: Seq<char>) -> bool {
    exists|i: int| 0 <= i < s.len() && s[i].id == id
}

/// First-write-wins insertion: a task whose identifier is already present
/// is discarded.
pub open spec fn spec_insert_one(s: Seq<TaskView>, t: TaskView) -> Seq<TaskView> {
    if spec_contains_id(s, t.id) {
        s
    } else {
        s.push(t)
    }
}

/// Inserts the tasks of `ts` in order, first-write-wins.
pub open spec fn spec_insert_all(s: Seq<TaskView>, ts: Seq<TaskView>) -> Seq<TaskView>
    decreases ts.len(),
{
    if ts.len() == 0 {
        s
    } else {
        spec_insert_all(spec_insert_one(s, ts[0]), ts.drop_first())
    }
}

/// All catalogued identifiers are distinct.
pub open spec fn ids_unique(s: Seq<TaskView>) -> bool {
    forall|i: int, j: int| 0 <= i < j < s.len() ==> s[i].id != s[j].id
}

/// First-write-wins insertion keeps identifiers unique.
pub proof fn lemma_insert_one_unique(s: Seq<TaskView>, t: TaskView)
    requires
        ids_unique(s),
    ensures
        ids_unique(spec_insert_one(s, t)),
{
    if !spec_contains_id(s, t.id) {
        let s2 = s.push(t);
        assert forall|i: int, j: int| 0 <= i < j < s2.len() implies s2[i].id != s2[j].id by {
            if j == s.len() && s[i].id == t.id {
                assert(spec_contains_id(s, t.id));
            }
        }
    }
}

/// A catalog populated by first-write-wins insertion, from any task
/// sequence, holds unique identifiers.
pub proof fn lemma_insert_all_unique(s: Seq<TaskView>, ts: Seq<TaskView>)
    requires
        ids_unique(s),
    ensures
        ids_unique(spec_insert_all(s, ts)),
    decreases ts.len(),
{
    if ts.len() > 0 {
        lemma_insert_one_unique(s, ts[0]);
        lemma_insert_all_unique(spec_insert_one(s, ts[0]), ts.drop_first());
    }
}

/// Inserting task by task, first-write-wins, folds from the left.
pub proof fn lemma_insert_all_snoc(s: Seq<TaskView>, ts: Seq<TaskView>, t: TaskView)
    ensures
        spec_insert_all(s, ts.push(t)) == spec_insert_one(spec_insert_all(s, ts), t),
    decreases ts.len(),
{
    if ts.len() == 0 {
        assert(ts.push(t)[0] == t);
        assert(ts.push(t).drop_first() =~= Seq::<TaskView>::empty());
        assert(spec_insert_all(s, ts.push(t)) == spec_insert_all(
            spec_insert_one(s, t),
            Seq::<TaskView>::empty(),
        ));
        assert(spec_insert_all(s, ts) == s);
    } else {
        assert(ts.push(t)[0] == ts[0]);
        assert(ts.push(t).drop_first() =~= ts.drop_first().push(t));
        lemma_insert_all_snoc(spec_insert_one(s, ts[0]), ts.drop_first(), t);
        assert(spec_insert_all(s, ts.push(t)) == spec_insert_all(
            spec_insert_one(s, ts[0]),
            ts.drop_first().push(t),
        ));
        assert(spec_insert_all(s, ts) == spec_insert_all(
            spec_insert_one(s, ts[0]),
            ts.drop_first(),
        ));
    }
}

/// The in-memory catalog: tasks keyed by identifier, keys unique,
/// populated once by a single ingestion pass.
#[derive(Debug, Clone, PartialEq, Eq)]
pub struct FileContent {
    pub repo: Vec<Task>,
}

impl View for FileContent {
    type V = Seq<TaskView>;

    open spec fn view(&self) -> Seq<TaskView> {
        self.repo@.map_values(|t: Task| t@)
    }
}

impl FileContent {
    /// An empty catalog.
    pub fn new() -> (r: Result<FileContent, DomainError>)
        ensures
            r is Ok,
            r matches Ok(c) ==> c@ == Seq::<TaskView>::empty(),
    {
        let c = FileContent { repo: Vec::new() };
        proof {
            assert(c@ =~= Seq::<TaskView>::empty());
        }
        Ok(c)
    }

    pub fn len(&self) -> (r: usize)
        ensures
            r == self@.len(),
    {
        self.repo.len()
    }

    pub fn get(&self, i: usize) -> (r: &Task)
        requires
            i < self@.len(),
        ensures
            r@ == self@[i as int],
    {
        &self.repo[i]
    }

    /// Whether a task with this identifier is already catalogued.
    pub fn contains_id(&self, id: &TaskID) -> (r: bool)
        ensures
            r == spec_contains_id(self@, id@),
    {
        let n = self.repo.len();
        let mut i: usize = 0;
        while i < n
            invariant
                n == self.repo@.len(),
                i <= n,
                forall|j: int| 0 <= j < i ==> self@[j].id != id@,
            decreases n - i,
        {
            let t = &self.repo[i];
            if t.id.0 == id.0 {
                assert(self@[i as int].id == id@);
                return true;
            }
            i += 1;
        }
        false
    }

    /// First-write-wins insertion under the task's identifier.
    pub fn insert(&mut self, task: Task)
        ensures
            final(self)@ == spec_insert_one(old(self)@, task@),
    {
        if self.contains_id(&task.id) {
            return;
        }
        let ghost prev = self@;
        let ghost tv = task@;
        self.repo.push(task);
        proof {
            assert(self@ =~= prev.push(tv));
        }
    }

    /// The first catalogued task carrying this identifier, if any.
    pub fn lookup(&self, id: &str) -> (r: Option<&Task>)
        ensures
            r is Some <==> spec_contains_id(self@, id@),
            r matches Some(t) ==> exists|i: int|
                0 <= i < self@.len() && (#[trigger] self@[i]) == t@ && self@[i].id == id@,
    {
        let n = self.repo.len();
        let mut i: usize = 0;
        while i < n
            invariant
                n == self.repo@.len(),
                i <= n,
                forall|j: int| 0 <= j < i ==> self@[j].id != id@,
            decreases n - i,
        {
            let t = &self.repo[i];
            if crate::text::str_eq(t.id.0.as_str(), id) {
                assert(self@[i as int].id == id@);
                return Some(t);
            }
            i += 1;
        }
        None
    }
}

} // verus!
