//! What is written to a file, and how that fails.
use crate::adapter::IoError;
use crate::text::{append_decimal, prefixed, quote};
use crate::{buffer, text};
use bytes::Bytes;
use std::ops::Range;
use vstd::prelude::*;
use vstd::string::*;

verus! {

/// Bytes and where they belong.
#[derive(Debug)]
pub struct Chunk {
    /// Where.
    pub range: Range<u64>,
    /// The bytes.
    pub data: Bytes,
}

impl Clone for Chunk {
    fn clone(&self) -> (chunk: Self)
        ensures
            chunk.range == self.range,
            buffer::contents(chunk.data) == buffer::contents(self.data),
    {
        Chunk { range: self.range.start..self.range.end, data: self.data.clone() }
    }
}

/// A chunk in a message: its range and the number of its bytes.
pub open spec fn chunk_text(chunk: Option<Chunk>) -> Seq<char> {
    match chunk {
        Some(chunk) => "Some(Chunk { range: "@ + text::decimal(chunk.range.start as nat) + ".."@
            + text::decimal(chunk.range.end as nat) + ", data: "@ + text::decimal(
            buffer::contents(chunk.data).len(),
        ) + " bytes })"@,
        None => "None"@,
    }
}

/// Append a chunk to a message.
fn append_chunk(message: &mut String, chunk: &Option<Chunk>)
    ensures
        final(message)@ == old(message)@ + chunk_text(*chunk),
{
    match chunk {
        Some(chunk) => {
            message.append("Some(Chunk { range: ");
            append_decimal(message, chunk.range.start);
            message.append("..");
            append_decimal(message, chunk.range.end);
            message.append(", data: ");
            append_decimal(message, chunk.data.len() as u64);
            message.append(" bytes })");
        },
        None => {
            message.append("None");
        },
    }
    assert(message@ =~= old(message)@ + chunk_text(*chunk));
}

/// How a command to a writer fails.
#[derive(Debug)]
pub enum CommandError {
    /// An input/output error.
    Io { source: IoError },
    /// The answer to a command did not come.
    Recv,
    /// A command could not be handed over.
    Send,
}

impl CommandError {
    /// The message of the error.
    pub fn message(&self) -> (text: String)
        ensures
            text@ == match *self {
                CommandError::Io { source } => source.message@,
                CommandError::Recv => "failed to receive command: channel closed"@,
                CommandError::Send => "failed to send command: channel closed"@,
            },
    {
        match self {
            CommandError::Io { source } => source.message.clone(),
            CommandError::Recv => "failed to receive command: channel closed".to_string(),
            CommandError::Send => "failed to send command: channel closed".to_string(),
        }
    }
}

/// How a file writer fails.
#[derive(Debug)]
pub enum FileWriterError {
    /// The file could not be opened or created.
    OpenOrCreateFile { source: CommandError, path: String },
    /// The file could not be given its size.
    AllocateFile { source: CommandError, size: u64 },
    /// A chunk could not be written.
    WriteRange { source: CommandError, chunk: Option<Chunk>, path: String },
    /// The data could not be brought to disk.
    Finalize { source: CommandError, path: String },
}

impl FileWriterError {
    /// The message of the error.
    pub open spec fn text(self) -> Seq<char> {
        match self {
            FileWriterError::OpenOrCreateFile { path, .. } => "failed to open or create file "@
                + text::quoted(path@),
            FileWriterError::AllocateFile { size, .. } => "failed to allocate file size "@
                + text::decimal(size as nat),
            FileWriterError::WriteRange { chunk, path, .. } => "failed to write range "@
                + chunk_text(chunk) + ", path: "@ + text::quoted(path@),
            FileWriterError::Finalize { path, .. } =>
                "failed to finalize, sync all data to disk etc, in path: "@ + text::quoted(path@),
        }
    }

    /// The message of the error.
    pub fn message(&self) -> (text: String)
        ensures
            text@ == self.text(),
    {
        match self {
            FileWriterError::OpenOrCreateFile { path, .. } => prefixed(
                "failed to open or create file ",
                quote(path.as_str()).as_str(),
            ),
            FileWriterError::AllocateFile { size, .. } => {
                let mut message = "failed to allocate file size ".to_string();
                append_decimal(&mut message, *size);
                message
            },
            FileWriterError::WriteRange { chunk, path, .. } => {
                let mut message = "failed to write range ".to_string();
                append_chunk(&mut message, chunk);
                message.append(", path: ");
                message.append(quote(path.as_str()).as_str());
                message
            },
            FileWriterError::Finalize { path, .. } => prefixed(
                "failed to finalize, sync all data to disk etc, in path: ",
                quote(path.as_str()).as_str(),
            ),
        }
    }
}

/// How the making of a file writer fails.
#[derive(Debug)]
pub enum FileWriterBuilderError {
    /// Something was not set.
    Validation { message: String },
    /// The writer failed.
    RangeWriter { source: FileWriterError },
}

impl FileWriterBuilderError {
    /// The message of the error.
    pub fn message(&self) -> (text: String)
        ensures
            text@ == match *self {
                FileWriterBuilderError::Validation { message } => "validation failed: "@
                    + message@,
                FileWriterBuilderError::RangeWriter { source } => source.text(),
            },
    {
        match self {
            FileWriterBuilderError::Validation { message } => prefixed(
                "validation failed: ",
                message.as_str(),
            ),
            FileWriterBuilderError::RangeWriter { source } => source.message(),
        }
    }
}

/// What came back of a command to a writer.
#[derive(Debug)]
pub enum CommandReply {
    /// The command could not be handed over.
    NotSent,
    /// No answer came.
    NotAnswered,
    /// The answer.
    Answered(Result<(), IoError>),
}

/// The error that a reply stands for, if it is one.
pub open spec fn reply_error(reply: CommandReply) -> Option<CommandError> {
    match reply {
        CommandReply::NotSent => Some(CommandError::Send),
        CommandReply::NotAnswered => Some(CommandError::Recv),
        CommandReply::Answered(Err(source)) => Some(CommandError::Io { source }),
        CommandReply::Answered(Ok(_)) => None,
    }
}

impl CommandReply {
    /// The error that the reply stands for, if it is one.
    pub fn into_error(self) -> (error: Option<CommandError>)
        ensures
            error == reply_error(self),
    {
        match self {
            CommandReply::NotSent => Some(CommandError::Send),
            CommandReply::NotAnswered => Some(CommandError::Recv),
            CommandReply::Answered(Err(source)) => Some(CommandError::Io { source }),
            CommandReply::Answered(Ok(())) => None,
        }
    }

    /// What a write comes to.
    pub fn write_result(self, chunk: Chunk, path: String) -> (result: Result<(), FileWriterError>)
        ensures
            match reply_error(self) {
                Some(source) => result == Err::<(), FileWriterError>(
                    FileWriterError::WriteRange { source, chunk: Some(chunk), path },
                ),
                None => result is Ok,
            },
    {
        match self.into_error() {
            Some(source) => Err(FileWriterError::WriteRange { source, chunk: Some(chunk), path }),
            None => Ok(()),
        }
    }

    /// What a finalization comes to.
    pub fn finalize_result(self, path: String) -> (result: Result<(), FileWriterError>)
        ensures
            match reply_error(self) {
                Some(source) => result == Err::<(), FileWriterError>(
                    FileWriterError::Finalize { source, path },
                ),
                None => result is Ok,
            },
    {
        match self.into_error() {
            Some(source) => Err(FileWriterError::Finalize { source, path }),
            None => Ok(()),
        }
    }

    /// What the start of a writer comes to.
    pub fn open_result(self, path: String) -> (result: Result<(), FileWriterError>)
        ensures
            match reply_error(self) {
                Some(source) => result == Err::<(), FileWriterError>(
                    FileWriterError::OpenOrCreateFile { source, path },
                ),
                None => result is Ok,
            },
    {
        match self.into_error() {
            Some(source) => Err(FileWriterError::OpenOrCreateFile { source, path }),
            None => Ok(()),
        }
    }
}

} // verus!
