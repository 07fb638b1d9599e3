//! The raw record shape carried by the source document, and its
//! assembly into a validated task.

use crate::domain::{Task, TaskTag, TaskTitle, TaskView, tag_ok, title_ok};
use crate::error::{AppError, DomainError};
use crate::service::{IdPolicy, TimeService, id_ok, spec_timechart, validate_id};
use crate::text::{lower_of, trim_spec};
use vstd::prelude::*;

verus! {

/// Mathematical model of a raw record.
pub ghost struct DtoView {
    pub id: Seq<char>,
    pub name: Seq<char>,
    pub timedate: Seq<char>,
    pub tags: Seq<char>,
}

/// A raw record as deserialized from the source document, with the fixed
/// field names `id`, `name`, `timedate`, `tags`.
#[derive(Debug, Clone, PartialEq, Eq)]
pub struct TaskDTO {
    pub id: String,
    pub name: String,
    pub timedate: String,
    pub tags: String,
}

impl View for TaskDTO {
    type V = DtoView;

    open spec fn view(&self) -> DtoView {
        DtoView { id: self.id@, name: self.name@, timedate: self.timedate@, tags: self.tags@ }
    }
}

/// Assembling one record: the validators run in the fixed order
/// identifier, title, time, tag, and the first failure is the result.
pub open spec fn spec_into_domain(d: DtoView, policy: IdPolicy) -> Result<TaskView, AppError> {
    if !id_ok(d.id, policy) {
        Err(AppError::DomainError(DomainError::UnvalidParsingUuid))
    } else if !title_ok(d.name) {
        Err(AppError::DomainError(DomainError::UnvalidTaskTitleFormat))
    } else {
        match spec_timechart(d.timedate) {
            Err(e) => Err(e),
            Ok(tl) => {
                if !tag_ok(d.tags) {
                    Err(AppError::DomainError(DomainError::UnvalidTaskTagFormat))
                } else {
                    Ok(
                        TaskView {
                            id: d.id,
                            title: lower_of(trim_spec(d.name)),
                            timeline: tl,
                            tag: Some(lower_of(trim_spec(d.tags))),
                        },
                    )
                }
            },
        }
    }
}

impl TaskDTO {
    /// Validates the four raw fields in order (identifier, title, time,
    /// tag) and assembles the task, returning the first error met; no
    /// partial record is ever produced.
    pub fn into_domain(&self, policy: IdPolicy) -> (r: Result<Task, AppError>)
        ensures
            r is Ok <==> spec_into_domain(self@, policy) is Ok,
            r matches Ok(t) ==> Ok::<TaskView, AppError>(t@) == spec_into_domain(self@, policy),
            r matches Err(e) ==> Err::<TaskView, AppError>(e) == spec_into_domain(self@, policy),
    {
        let id = match validate_id(self.id.as_str(), policy) {
            Ok(v) => v,
            Err(e) => {
                return Err(AppError::DomainError(e));
            },
        };
        let title = match TaskTitle::new(self.name.as_str()) {
            Ok(v) => v,
            Err(e) => {
                return Err(AppError::DomainError(e));
            },
        };
        let timeline = match TimeService::timechart_from_raw(self.timedate.as_str()) {
            Ok(v) => v,
            Err(e) => {
                return Err(e);
            },
        };
        let tag = match TaskTag::from_raw(self.tags.as_str()) {
            Ok(v) => v,
            Err(e) => {
                return Err(AppError::DomainError(e));
            },
        };
        Ok(Task { id, title, timeline, tag })
    }
}

} // verus!
