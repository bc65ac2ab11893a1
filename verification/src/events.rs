//! The events of a run, for whoever watches it from outside.

use vstd::prelude::*;
use crate::mock_clock::Instant;

verus! {

/// The kinds of events.
#[derive(Debug, Clone, Copy, PartialEq, Eq, Structural)]
pub enum EventType {
    RunStarted,
    RunCompleted,
    WorkflowStarted,
    WorkflowCompleted,
    WorkflowSkipped,
    JobStarted,
    JobCompleted,
    StepStarted,
    StepCompleted,
}

/// An event of a run. What does not belong to the kind of the event is
/// not there.
#[derive(Debug, Clone)]
pub struct RunEvent {
    pub event_type: EventType,
    pub run_id: String,
    pub timestamp: Instant,
    pub workflow_name: Option<String>,
    pub job_name: Option<String>,
    pub step_index: Option<usize>,
    pub step_name: Option<String>,
    pub success: Option<bool>,
    pub error: Option<String>,
    pub reason: Option<String>,
}

/// What a [`RunEvent`] holds.
pub struct EventView {
    pub event_type: EventType,
    pub run_id: Seq<char>,
    pub timestamp: int,
    pub workflow_name: Option<Seq<char>>,
    pub job_name: Option<Seq<char>>,
    pub step_index: Option<int>,
    pub step_name: Option<Seq<char>>,
    pub success: Option<bool>,
    pub error: Option<Seq<char>>,
    pub reason: Option<Seq<char>>,
}

impl View for RunEvent {
    type V = EventView;

    open spec fn view(&self) -> EventView {
        EventView {
            event_type: self.event_type,
            run_id: self.run_id@,
            timestamp: self.timestamp@,
            workflow_name: crate::context::option_text(self.workflow_name),
            job_name: crate::context::option_text(self.job_name),
            step_index: match self.step_index {
                Some(i) => Some(i as int),
                None => None,
            },
            step_name: crate::context::option_text(self.step_name),
            success: self.success,
            error: crate::context::option_text(self.error),
            reason: crate::context::option_text(self.reason),
        }
    }
}

/// An event of the run `run_id` at `timestamp` that holds nothing else.
pub open spec fn bare(event_type: EventType, run_id: Seq<char>, timestamp: int) -> EventView {
    EventView {
        event_type,
        run_id,
        timestamp,
        workflow_name: None,
        job_name: None,
        step_index: None,
        step_name: None,
        success: None,
        error: None,
        reason: None,
    }
}

impl RunEvent {
    fn blank(event_type: EventType, run_id: &str, timestamp: Instant) -> (e: Self)
        ensures
            e@ == bare(event_type, run_id@, timestamp@),
    {
        RunEvent {
            event_type,
            run_id: run_id.to_string(),
            timestamp,
            workflow_name: None,
            job_name: None,
            step_index: None,
            step_name: None,
            success: None,
            error: None,
            reason: None,
        }
    }

    /// A run has begun.
    pub fn run_started(run_id: &str, timestamp: Instant) -> (e: Self)
        ensures
            e@ == bare(EventType::RunStarted, run_id@, timestamp@),
    {
        RunEvent::blank(EventType::RunStarted, run_id, timestamp)
    }

    /// A run has ended.
    pub fn run_completed(run_id: &str, success: bool, timestamp: Instant) -> (e: Self)
        ensures
            e@ == (EventView {
                success: Some(success),
                ..bare(EventType::RunCompleted, run_id@, timestamp@)
            }),
    {
        let mut e = RunEvent::blank(EventType::RunCompleted, run_id, timestamp);
        e.success = Some(success);
        e
    }

    /// A workflow has begun.
    pub fn workflow_started(run_id: &str, workflow_name: &str, timestamp: Instant) -> (e: Self)
        ensures
            e@ == (EventView {
                workflow_name: Some(workflow_name@),
                ..bare(EventType::WorkflowStarted, run_id@, timestamp@)
            }),
    {
        let mut e = RunEvent::blank(EventType::WorkflowStarted, run_id, timestamp);
        e.workflow_name = Some(workflow_name.to_string());
        e
    }

    /// A workflow has ended.
    pub fn workflow_completed(
        run_id: &str,
        workflow_name: &str,
        success: bool,
        error: Option<String>,
        timestamp: Instant,
    ) -> (e: Self)
        ensures
            e@ == (EventView {
                workflow_name: Some(workflow_name@),
                success: Some(success),
                error: crate::context::option_text(error),
                ..bare(EventType::WorkflowCompleted, run_id@, timestamp@)
            }),
    {
        let mut e = RunEvent::blank(EventType::WorkflowCompleted, run_id, timestamp);
        e.workflow_name = Some(workflow_name.to_string());
        e.success = Some(success);
        e.error = error;
        e
    }

    /// A workflow was skipped.
    pub fn workflow_skipped(run_id: &str, workflow_name: &str, reason: &str, timestamp: Instant) -> (e:
        Self)
        ensures
            e@ == (EventView {
                workflow_name: Some(workflow_name@),
                reason: Some(reason@),
                ..bare(EventType::WorkflowSkipped, run_id@, timestamp@)
            }),
    {
        let mut e = RunEvent::blank(EventType::WorkflowSkipped, run_id, timestamp);
        e.workflow_name = Some(workflow_name.to_string());
        e.reason = Some(reason.to_string());
        e
    }

    /// A job has begun.
    pub fn job_started(run_id: &str, workflow_name: &str, job_name: &str, timestamp: Instant) -> (e:
        Self)
        ensures
            e@ == (EventView {
                workflow_name: Some(workflow_name@),
                job_name: Some(job_name@),
                ..bare(EventType::JobStarted, run_id@, timestamp@)
            }),
    {
        let mut e = RunEvent::blank(EventType::JobStarted, run_id, timestamp);
        e.workflow_name = Some(workflow_name.to_string());
        e.job_name = Some(job_name.to_string());
        e
    }

    /// A job has ended.
    pub fn job_completed(
        run_id: &str,
        workflow_name: &str,
        job_name: &str,
        success: bool,
        timestamp: Instant,
    ) -> (e: Self)
        ensures
            e@ == (EventView {
                workflow_name: Some(workflow_name@),
                job_name: Some(job_name@),
                success: Some(success),
                ..bare(EventType::JobCompleted, run_id@, timestamp@)
            }),
    {
        let mut e = RunEvent::blank(EventType::JobCompleted, run_id, timestamp);
        e.workflow_name = Some(workflow_name.to_string());
        e.job_name = Some(job_name.to_string());
        e.success = Some(success);
        e
    }

    /// A step has begun.
    pub fn step_started(
        run_id: &str,
        workflow_name: &str,
        job_name: &str,
        step_index: usize,
        step_name: &str,
        timestamp: Instant,
    ) -> (e: Self)
        ensures
            e@ == (EventView {
                workflow_name: Some(workflow_name@),
                job_name: Some(job_name@),
                step_index: Some(step_index as int),
                step_name: Some(step_name@),
                ..bare(EventType::StepStarted, run_id@, timestamp@)
            }),
    {
        let mut e = RunEvent::blank(EventType::StepStarted, run_id, timestamp);
        e.workflow_name = Some(workflow_name.to_string());
        e.job_name = Some(job_name.to_string());
        e.step_index = Some(step_index);
        e.step_name = Some(step_name.to_string());
        e
    }

    /// A step has ended.
    pub fn step_completed(
        run_id: &str,
        workflow_name: &str,
        job_name: &str,
        step_index: usize,
        step_name: &str,
        success: bool,
        error: Option<String>,
        timestamp: Instant,
    ) -> (e: Self)
        ensures
            e@ == (EventView {
                workflow_name: Some(workflow_name@),
                job_name: Some(job_name@),
                step_index: Some(step_index as int),
                step_name: Some(step_name@),
                success: Some(success),
                error: crate::context::option_text(error),
                ..bare(EventType::StepCompleted, run_id@, timestamp@)
            }),
    {
        let mut e = RunEvent::blank(EventType::StepCompleted, run_id, timestamp);
        e.workflow_name = Some(workflow_name.to_string());
        e.job_name = Some(job_name.to_string());
        e.step_index = Some(step_index);
        e.step_name = Some(step_name.to_string());
        e.success = Some(success);
        e.error = error;
        e
    }
}

} // verus!
