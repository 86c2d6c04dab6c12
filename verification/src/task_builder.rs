//! Putting a task together: what must be set, where the content goes and how it is
//! downloaded.
use crate::adapter::{AdapterError, BoltLoadAdapterMeta, IoError};
use crate::task::DownloadMode;
use crate::text::prefixed;
use vstd::prelude::*;
use vstd::string::*;

verus! {

/// The extension of the downloading tmp file.
pub const DOWNLOADING_TMP_EXTENSION: &'static str = ".downloading";

/// The extension of the file of an unfinished task.
pub const PARTIAL_EXTENSION: &'static str = ".partial";

/// A path, and what its parts are.
#[derive(Debug)]
pub struct SavePath {
    /// The path itself.
    pub path: String,
    /// Its last part, where that is the name of a file.
    pub file_name: Option<String>,
    /// The path without its last part.
    pub parent: Option<String>,
}

/// Why a task was not built.
#[derive(Debug)]
pub enum TaskManagerBuildError {
    /// Something is missing or wrong.
    FieldValidationFailed(String),
    /// The error is unretryable, just returned by the adapter.
    AdapterError(AdapterError),
    /// An input/output error.
    IOError(IoError),
}

impl TaskManagerBuildError {
    /// The message of the error.
    pub fn message(&self) -> (text: String)
        ensures
            text@ == match *self {
                TaskManagerBuildError::FieldValidationFailed(message) =>
                    "field validation failed: "@ + message@,
                TaskManagerBuildError::AdapterError(source) => source.text(),
                TaskManagerBuildError::IOError(source) => source.message@,
            },
    {
        match self {
            TaskManagerBuildError::FieldValidationFailed(message) => prefixed(
                "field validation failed: ",
                message.as_str(),
            ),
            TaskManagerBuildError::AdapterError(source) => source.message(),
            TaskManagerBuildError::IOError(source) => source.message.clone(),
        }
    }
}

impl From<AdapterError> for TaskManagerBuildError {
    fn from(source: AdapterError) -> (error: Self) {
        TaskManagerBuildError::AdapterError(source)
    }
}

impl vstd::std_specs::convert::FromSpecImpl<AdapterError> for TaskManagerBuildError {
    open spec fn obeys_from_spec() -> bool {
        true
    }

    open spec fn from_spec(source: AdapterError) -> Self {
        TaskManagerBuildError::AdapterError(source)
    }
}

/// The check failed with the given message.
pub open spec fn refused_with<T>(
    result: Result<T, TaskManagerBuildError>,
    message: Seq<char>,
) -> bool {
    &&& result is Err
    &&& result->Err_0 is FieldValidationFailed
    &&& result->Err_0->FieldValidationFailed_0@ == message
}

fn refuse<T>(message: &str) -> (result: Result<T, TaskManagerBuildError>)
    ensures
        refused_with(result, message@),
{
    Err(TaskManagerBuildError::FieldValidationFailed(message.to_string()))
}

/// What a task is made from: an adapter `A`, a runtime `R`, something `L` that makes
/// local runtimes and a cancel token `C`.
#[derive(Debug)]
pub struct TaskBuilder<A, R, L, C> {
    /// The cancel token.
    pub cancel_token: Option<C>,
    /// The runtime.
    pub threaded_runtime: Option<R>,
    /// What makes local runtimes. It is optional.
    pub local_runtime_builder: Option<L>,
    /// What the content is, once it is known.
    pub meta: Option<BoltLoadAdapterMeta>,
    /// The adapter.
    pub adapter: Option<A>,
    /// The mode that is preferred.
    pub prefer_mode: Option<DownloadMode>,
    /// Where the content goes.
    pub save_path: Option<SavePath>,
    /// A directory for the content, under the name that the adapter suggests.
    pub save_dir: Option<String>,
}

/// A task that can be run.
#[derive(Debug)]
pub struct TaskPlan<A, R, L, C> {
    /// The adapter.
    pub adapter: A,
    /// How the content is downloaded.
    pub mode: DownloadMode,
    /// Where the content goes.
    pub save_path: SavePath,
    /// What the unfinished file is called.
    pub tmp_name: String,
    /// What the content is.
    pub meta: BoltLoadAdapterMeta,
    /// The runtime.
    pub threaded_rt: R,
    /// What makes local runtimes.
    pub local_runtime_builder: Option<L>,
    /// The cancel token.
    pub cancel_token: C,
}

/// What there is at the place where the content goes.
#[derive(Clone, Copy, Debug, PartialEq, Eq, Structural)]
pub struct Surroundings {
    /// The adapter can fetch parts of the content.
    pub range_stream_available: bool,
    /// The parent is a directory.
    pub parent_is_dir: bool,
    /// The path itself is a directory.
    pub target_is_dir: bool,
}

/// The mode of a task: concurrent where parts of the content can be fetched, unless a
/// single runner is preferred.
pub open spec fn chosen_mode(prefer: Option<DownloadMode>, range_available: bool) -> DownloadMode {
    if prefer == Some(DownloadMode::Singleton) || !range_available {
        DownloadMode::Singleton
    } else {
        DownloadMode::Concurrent
    }
}

/// The mode of a task.
pub fn choose_mode(prefer: Option<DownloadMode>, range_available: bool) -> (mode: DownloadMode)
    ensures
        mode == chosen_mode(prefer, range_available),
{
    if let Some(DownloadMode::Singleton) = prefer {
        DownloadMode::Singleton
    } else if range_available {
        DownloadMode::Concurrent
    } else {
        DownloadMode::Singleton
    }
}

/// Whether parts of the content matter for the mode: the adapter is asked only then.
pub fn must_ask_for_ranges(prefer: Option<DownloadMode>) -> (ask: bool)
    ensures
        ask == (prefer != Some(DownloadMode::Singleton)),
        !ask ==> forall|range_available: bool|
            chosen_mode(prefer, range_available) == DownloadMode::Singleton,
{
    !matches!(prefer, Some(DownloadMode::Singleton))
}

/// The name of the file of an unfinished task.
pub fn partial_name(file_name: &str) -> (name: String)
    ensures
        name@ == file_name@ + PARTIAL_EXTENSION@,
{
    prefixed(file_name, PARTIAL_EXTENSION)
}

/// The name of the file into which content is downloaded: the name with the
/// extension, unless it is nothing but the extension.
pub fn downloading_name(file_name: &str) -> (name: String)
    ensures
        name@ == if file_name@ == DOWNLOADING_TMP_EXTENSION@ {
            file_name@
        } else {
            file_name@ + DOWNLOADING_TMP_EXTENSION@
        },
{
    let name = file_name.to_string();
    if name == DOWNLOADING_TMP_EXTENSION.to_string() {
        name
    } else {
        prefixed(file_name, DOWNLOADING_TMP_EXTENSION)
    }
}

impl<A, R, L, C> TaskBuilder<A, R, L, C> {
    /// Nothing is set.
    pub fn new() -> (builder: Self)
        ensures
            builder == (TaskBuilder::<A, R, L, C> {
                cancel_token: None,
                threaded_runtime: None,
                local_runtime_builder: None,
                meta: None,
                adapter: None,
                prefer_mode: None,
                save_path: None,
                save_dir: None,
            }),
    {
        TaskBuilder {
            cancel_token: None,
            threaded_runtime: None,
            local_runtime_builder: None,
            meta: None,
            adapter: None,
            prefer_mode: None,
            save_path: None,
            save_dir: None,
        }
    }

    /// Set the adapter.
    pub fn adapter(self, adapter: A) -> (builder: Self)
        ensures
            builder == (TaskBuilder { adapter: Some(adapter), ..self }),
    {
        TaskBuilder { adapter: Some(adapter), ..self }
    }

    /// Set the cancel token.
    pub fn cancel_token(self, cancel_token: C) -> (builder: Self)
        ensures
            builder == (TaskBuilder { cancel_token: Some(cancel_token), ..self }),
    {
        TaskBuilder { cancel_token: Some(cancel_token), ..self }
    }

    /// Set the prefer mode.
    pub fn prefer_mode(self, mode: DownloadMode) -> (builder: Self)
        ensures
            builder == (TaskBuilder { prefer_mode: Some(mode), ..self }),
    {
        TaskBuilder { prefer_mode: Some(mode), ..self }
    }

    /// Set the save path.
    pub fn save_path(self, path: SavePath) -> (builder: Self)
        ensures
            builder == (TaskBuilder { save_path: Some(path), ..self }),
    {
        TaskBuilder { save_path: Some(path), ..self }
    }

    /// Set the save directory.
    pub fn save_dir(self, dir: String) -> (builder: Self)
        ensures
            builder == (TaskBuilder { save_dir: Some(dir), ..self }),
    {
        TaskBuilder { save_dir: Some(dir), ..self }
    }

    /// Set the threaded runtime.
    pub fn threaded_runtime(self, runtime: R) -> (builder: Self)
        ensures
            builder == (TaskBuilder { threaded_runtime: Some(runtime), ..self }),
    {
        TaskBuilder { threaded_runtime: Some(runtime), ..self }
    }

    /// Set the local runtime builder.
    ///
    /// It is optional, if not set, the local runtime will be the same as the threaded
    /// runtime.
    pub fn local_runtime_builder(self, builder: L) -> (result: Self)
        ensures
            result == (TaskBuilder { local_runtime_builder: Some(builder), ..self }),
    {
        TaskBuilder { local_runtime_builder: Some(builder), ..self }
    }

    /// What the adapter must be asked before it is asked what the content is: whether
    /// it is there.
    pub fn check_adapter(&self) -> (result: Result<(), TaskManagerBuildError>)
        ensures
            match self.adapter {
                Some(_) => result is Ok,
                None => refused_with(result, "adapter is not set"@),
            },
    {
        if self.adapter.is_none() {
            return refuse("adapter is not set");
        }
        Ok(())
    }

    /// Whether the cancel token is set.
    pub fn check_cancel_token(&self) -> (result: Result<(), TaskManagerBuildError>)
        ensures
            match self.cancel_token {
                Some(_) => result is Ok,
                None => refused_with(result, "cancel token is not set"@),
            },
    {
        if self.cancel_token.is_none() {
            return refuse("cancel token is not set");
        }
        Ok(())
    }

    /// Take note of what the adapter said of the content. What it said first stays.
    pub fn retrieve_meta(&mut self, answer: Result<BoltLoadAdapterMeta, AdapterError>) -> (result:
        Result<(), TaskManagerBuildError>)
        ensures
            match old(self).adapter {
                None => refused_with(result, "adapter is not set"@) && *final(self) == *old(self),
                Some(_) => match (old(self).meta, answer) {
                    (Some(_), _) => result is Ok && *final(self) == *old(self),
                    (None, Ok(meta)) => {
                        &&& result is Ok
                        &&& *final(self) == (TaskBuilder { meta: Some(meta), ..*old(self) })
                    },
                    (None, Err(error)) => {
                        &&& result == Err::<(), TaskManagerBuildError>(
                            TaskManagerBuildError::AdapterError(error),
                        )
                        &&& *final(self) == *old(self)
                    },
                },
            },
    {
        if self.adapter.is_none() {
            return refuse("adapter is not set");
        }
        if self.meta.is_none() {
            match answer {
                Ok(meta) => {
                    self.meta = Some(meta);
                },
                Err(error) => {
                    return Err(TaskManagerBuildError::from(error));
                },
            }
        }
        Ok(())
    }

    /// The directory and the name under which the content goes by suggestion: where no
    /// path is set, a directory is, and the adapter suggests a name.
    pub open spec fn suggestion(&self) -> Option<(String, String)> {
        match (self.save_path, self.meta, self.save_dir) {
            (None, Some(meta), Some(dir)) => match meta.filename {
                Some(name) => Some((dir, name)),
                None => None,
            },
            _ => None,
        }
    }

    /// The directory and the name under which the content goes by suggestion, to be
    /// joined and set as the path.
    pub fn suggested_path(&self) -> (suggestion: Option<(String, String)>)
        ensures
            suggestion == self.suggestion(),
    {
        if self.save_path.is_none() {
            if let Some(meta) = &self.meta {
                if let Some(name) = &meta.filename {
                    if let Some(dir) = &self.save_dir {
                        return Some((dir.clone(), name.clone()));
                    }
                }
            }
        }
        None
    }

    /// Take up the path by suggestion: `joined` is the directory with the name. Without
    /// a suggestion nothing changes.
    pub fn take_suggestion(&mut self, joined: SavePath)
        ensures
            *final(self) == if old(self).suggestion() is Some {
                TaskBuilder { save_path: Some(joined), ..*old(self) }
            } else {
                *old(self)
            },
            final(self).suggestion() is None,
    {
        if self.suggested_path().is_some() {
            self.save_path = Some(joined);
        }
    }

    /// What is missing for a task, by its message.
    pub open spec fn missing(&self) -> Option<Seq<char>> {
        if self.threaded_runtime is None {
            Some("runtime is not set"@)
        } else if self.adapter is None {
            Some("adapter is not set"@)
        } else {
            match self.save_path {
                Some(path) => if path.file_name is None {
                    Some("save path must have a filename"@)
                } else {
                    None
                },
                None => Some("save path is not set"@),
            }
        }
    }

    /// Whether all is there.
    pub fn validate(&self) -> (result: Result<(), TaskManagerBuildError>)
        ensures
            match self.missing() {
                Some(message) => refused_with(result, message),
                None => result is Ok,
            },
    {
        if self.threaded_runtime.is_none() {
            return refuse("runtime is not set");
        }
        if self.adapter.is_none() {
            return refuse("adapter is not set");
        }
        match &self.save_path {
            Some(path) => {
                if path.file_name.is_none() {
                    return refuse("save path must have a filename");
                }
            },
            None => {
                return refuse("save path is not set");
            },
        }
        Ok(())
    }

    /// What stands in the way of the content, by its message.
    pub open spec fn obstacle(&self, found: Surroundings) -> Option<Seq<char>> {
        if self.cancel_token is None {
            Some("cancel token is not set"@)
        } else if self.adapter is None {
            Some("adapter is not set"@)
        } else if self.missing() is Some {
            self.missing()
        } else if (self.save_path->0).parent is None {
            Some("save path parent directory does not exist"@)
        } else if !found.parent_is_dir {
            Some("save path parent directory does not exist or is not a directory"@)
        } else if found.target_is_dir {
            Some("save path already exists as a directory"@)
        } else {
            None
        }
    }

    /// The task, where all is there and nothing stands in its way. A path by suggestion
    /// has been taken up before.
    pub fn build(self, found: Surroundings) -> (result: Result<
        TaskPlan<A, R, L, C>,
        TaskManagerBuildError,
    >)
        requires
            self.adapter is Some ==> self.meta is Some,
            self.suggestion() is None,
        ensures
            match self.obstacle(found) {
                Some(message) => refused_with(result, message),
                None => {
                    &&& result is Ok
                    &&& self.planned(found, result->Ok_0)
                },
            },
    {
        self.check_cancel_token()?;
        self.check_adapter()?;
        self.validate()?;
        let TaskBuilder {
            cancel_token,
            threaded_runtime,
            local_runtime_builder,
            meta,
            adapter,
            prefer_mode,
            save_path,
            save_dir: _,
        } = self;
        match (cancel_token, threaded_runtime, meta, adapter, save_path) {
            (
                Some(cancel_token),
                Some(threaded_rt),
                Some(meta),
                Some(adapter),
                Some(save_path),
            ) => {
                let mode = choose_mode(prefer_mode, found.range_stream_available);
                // Check if the parent directory exists
                if save_path.parent.is_none() {
                    return refuse("save path parent directory does not exist");
                }
                if !found.parent_is_dir {
                    return refuse(
                        "save path parent directory does not exist or is not a directory",
                    );
                }
                // Check if the file exists and is a directory
                if found.target_is_dir {
                    return refuse("save path already exists as a directory");
                }
                let tmp_name = match &save_path.file_name {
                    Some(name) => partial_name(name.as_str()),
                    None => "".to_string(),
                };
                Ok(
                    TaskPlan {
                        adapter,
                        mode,
                        save_path,
                        tmp_name,
                        meta,
                        threaded_rt,
                        local_runtime_builder,
                        cancel_token,
                    },
                )
            },
            _ => refuse("adapter is not set"),
        }
    }

    /// The task as it was put together.
    pub open spec fn planned(&self, found: Surroundings, plan: TaskPlan<A, R, L, C>) -> bool {
        &&& self.adapter == Some(plan.adapter)
        &&& self.threaded_runtime == Some(plan.threaded_rt)
        &&& self.local_runtime_builder == plan.local_runtime_builder
        &&& self.cancel_token == Some(plan.cancel_token)
        &&& self.meta == Some(plan.meta)
        &&& self.save_path == Some(plan.save_path)
        &&& plan.mode == chosen_mode(self.prefer_mode, found.range_stream_available)
        &&& plan.tmp_name@ == (plan.save_path.file_name->0)@ + PARTIAL_EXTENSION@
    }
}

} // verus!
