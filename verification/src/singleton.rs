//! A task with a single runner.
use crate::adapter::{AdapterError, BoltLoadAdapterMeta};
use crate::runner_error::{LifecycleEvent, StoppedReason};
use crate::task::{Progress, TaskInstanceError};
use crate::{buffer, RunnerId};
use bytes::Bytes;
use std::ops::Range;
use vstd::prelude::*;

verus! {

/// Singleton task only have one runner, so we use a static id for the runner.
pub const STATIC_RUNNER_ID: RunnerId = 0;

/// What a task with a single runner knows.
#[derive(Debug)]
pub struct SingletonTaskInner {
    /// The size of the content, where it is known.
    pub total: Option<u64>,
    /// How much has been downloaded.
    pub downloaded: u64,
    /// The runner has stopped.
    pub runner_stopped: bool,
    /// There is no more data.
    pub data_done: bool,
}

impl SingletonTaskInner {
    /// Nothing is known.
    pub fn new() -> (task: Self)
        ensures
            task == (SingletonTaskInner {
                total: None,
                downloaded: 0,
                runner_stopped: false,
                data_done: false,
            }),
    {
        SingletonTaskInner { total: None, downloaded: 0, runner_stopped: false, data_done: false }
    }

    /// What the adapter said of the content was taken note of.
    pub open spec fn learnt(
        &self,
        before: &SingletonTaskInner,
        answer: Result<BoltLoadAdapterMeta, AdapterError>,
        result: Result<(), TaskInstanceError>,
    ) -> bool {
        match answer {
            Ok(meta) => {
                &&& result is Ok
                &&& *self == (SingletonTaskInner {
                    total: if meta.content_size == 0 {
                        None
                    } else {
                        Some(meta.content_size)
                    },
                    downloaded: 0,
                    ..*before
                })
            },
            Err(error) => {
                &&& result == Err::<(), TaskInstanceError>(
                    TaskInstanceError::RetrieveMetaFailed(error),
                )
                &&& *self == *before
            },
        }
    }

    /// Take note of what the adapter said of the content. A size of zero means that it
    /// is not known.
    pub fn retrieve_meta(&mut self, answer: Result<BoltLoadAdapterMeta, AdapterError>) -> (result:
        Result<(), TaskInstanceError>)
        ensures
            final(self).learnt(old(self), answer, result),
    {
        match answer {
            Ok(meta) => {
                self.total = if meta.content_size == 0 {
                    None
                } else {
                    Some(meta.content_size)
                };
                self.downloaded = 0;
                Ok(())
            },
            Err(error) => Err(TaskInstanceError::RetrieveMetaFailed(error)),
        }
    }

    /// What a report of the runner, or the end of its reports, leads to.
    pub open spec fn on_lifecycle(self, event: Option<LifecycleEvent>) -> (
        SingletonTaskInner,
        Result<bool, TaskInstanceError>,
    ) {
        match event {
            Some(LifecycleEvent::Stopped(StoppedReason::Finished)) => (
                SingletonTaskInner { runner_stopped: true, ..self },
                Ok(self.data_done),
            ),
            Some(LifecycleEvent::Stopped(StoppedReason::Failed(error))) => (
                self,
                Err(TaskInstanceError::Failed(error)),
            ),
            Some(LifecycleEvent::Started) => (self, Ok(self.runner_stopped && self.data_done)),
            None => (self, Ok(false)),
        }
    }

    /// What so many bytes of data lead to, and where they belong.
    pub open spec fn on_data(self, count: int) -> (SingletonTaskInner, Range<u64>) {
        let downloaded = (self.downloaded + count) as u64;
        (
            SingletonTaskInner { downloaded, ..self },
            Range { start: self.downloaded, end: downloaded },
        )
    }

    /// What the end of the data leads to.
    pub open spec fn on_data_end(self) -> (SingletonTaskInner, bool) {
        (SingletonTaskInner { data_done: true, ..self }, self.runner_stopped)
    }

    /// Handle what the runner reports, or the end of its reports. Returns whether the
    /// download is done: where the runner finished and there is no more data.
    pub fn handle_lifecycle_event(&mut self, event: Option<LifecycleEvent>) -> (done: Result<
        bool,
        TaskInstanceError,
    >)
        ensures
            (*final(self), done) == old(self).on_lifecycle(event),
    {
        match event {
            Some(LifecycleEvent::Stopped(StoppedReason::Finished)) => {
                self.runner_stopped = true;
                // Data that is still on its way comes first
                Ok(self.data_done)
            },
            Some(LifecycleEvent::Stopped(StoppedReason::Failed(error))) => Err(
                TaskInstanceError::new_failed(error),
            ),
            Some(LifecycleEvent::Started) => Ok(self.runner_stopped && self.data_done),
            None => Ok(false),
        }
    }

    /// Handle data from the runner: it counts, and is to be written behind what came
    /// before. Returns where it belongs.
    pub fn handle_data_frame(&mut self, data: &Bytes, meter: &mut usize) -> (range: Range<u64>)
        requires
            old(self).downloaded + buffer::contents(*data).len() <= u64::MAX,
            *old(meter) + buffer::contents(*data).len() <= usize::MAX,
        ensures
            (*final(self), range) == old(self).on_data(buffer::contents(*data).len() as int),
            *final(meter) == *old(meter) + buffer::contents(*data).len(),
    {
        let start = self.downloaded;
        *meter = *meter + data.len();
        self.downloaded = self.downloaded + data.len() as u64;
        start..self.downloaded
    }

    /// There is no more data. Returns whether the download is done: where the runner
    /// has stopped.
    pub fn handle_data_end(&mut self) -> (done: bool)
        ensures
            (*final(self), done) == old(self).on_data_end(),
    {
        self.data_done = true;
        self.runner_stopped
    }

    /// The progress: one chunk, from the start.
    pub open spec fn reports(&self, progress: Progress) -> bool {
        &&& progress.total == self.total
        &&& progress.downloaded == self.downloaded
        &&& progress.downloaded_chunks@ == seq![Range { start: 0u64, end: self.downloaded }]
    }

    /// The progress.
    pub fn progress(&self) -> (progress: Progress)
        ensures
            self.reports(progress),
    {
        let progress = Progress {
            total: self.total,
            downloaded: self.downloaded,
            downloaded_chunks: vec![0..self.downloaded],
        };
        assert(progress.downloaded_chunks@ =~= seq![Range { start: 0u64, end: self.downloaded }]);
        progress
    }

    /// The progress at the end: where the size was not known, it is what was
    /// downloaded.
    pub fn finished_progress(&self) -> (progress: Progress)
        ensures
            progress.total == match self.total {
                Some(total) => Some(total),
                None => Some(self.downloaded),
            },
            progress.downloaded == self.downloaded,
            progress.downloaded_chunks@ == seq![Range { start: 0u64, end: self.downloaded }],
    {
        let total = match self.total {
            Some(total) => total,
            None => self.downloaded,
        };
        Progress { total: Some(total), ..self.progress() }
    }
}

} // verus!
