//! Reading ahead while a file is written: the messages of the reader, and the
//! size of its buffer.
use vstd::prelude::*;
use vstd::string::*;

use super::super::{least, most};
use crate::text::cat2;

verus! {

/// What a reader hands on.
pub enum ReadMsg {
    Data(Vec<u8>),
    Failed(String),
    Eof,
}

/// The message of a reader after a read into a buffer: what was read, the end,
/// or the error. After anything but data the reader stops.
pub fn read_message(buf: Vec<u8>, got: Result<usize, String>) -> (r: ReadMsg)
    requires
        got matches Ok(n) ==> n <= buf.len(),
    ensures
        match (got, r) {
            (Ok(n), ReadMsg::Data(data)) => n > 0 && data@ == buf@.take(n as int),
            (Ok(n), ReadMsg::Eof) => n == 0,
            (Err(e), ReadMsg::Failed(m)) => m@ == "reader error: "@ + e@,
            _ => false,
        },
{
    match got {
        Ok(n) => {
            if n == 0 {
                ReadMsg::Eof
            } else {
                let mut buf = buf;
                let ghost all = buf@;
                buf.truncate(n);
                proof {
                    assert(buf@ =~= all.take(n as int));
                }
                ReadMsg::Data(buf)
            }
        },
        Err(e) => ReadMsg::Failed(cat2("reader error: ", e.as_str())),
    }
}

/// Whether a reader goes on after a message.
pub fn reader_goes_on(msg: &ReadMsg) -> (r: bool)
    ensures
        r == (msg is Data),
{
    match msg {
        ReadMsg::Data(_) => true,
        _ => false,
    }
}

/// How a file is read ahead.
#[derive(Debug, Clone, Copy, PartialEq, Eq, Structural)]
pub struct PipelineConfig {
    /// From this size on a file is read ahead.
    pub enable_min: u64,
    /// How many buffers may wait.
    pub depth: usize,
    /// How long the writing of a buffer should take, in milliseconds.
    pub target_ms: u32,
    pub min_size: usize,
    pub max_size: usize,
}

impl PipelineConfig {
    pub open spec fn standard() -> Self {
        PipelineConfig {
            enable_min: 0x2_0000,
            depth: 4,
            target_ms: 150,
            min_size: 0x1_0000,
            max_size: 0x80_0000,
        }
    }

    pub fn defaults() -> (r: Self)
        ensures
            r == PipelineConfig::standard(),
    {
        PipelineConfig {
            enable_min: 0x2_0000,
            depth: 4,
            target_ms: 150,
            min_size: 0x1_0000,
            max_size: 0x80_0000,
        }
    }

    /// What applies to this run.
    pub fn current() -> (r: Self)
        ensures
            r == PipelineConfig::standard(),
    {
        PipelineConfig::defaults()
    }

    /// Whether a file of this size is read ahead. One of unknown size is not.
    pub fn reads_ahead(&self, size: Option<u64>) -> (r: bool)
        ensures
            r == match size {
                Some(n) => n >= self.enable_min,
                None => 0 >= self.enable_min,
            },
    {
        match size {
            Some(n) => n >= self.enable_min,
            None => 0 >= self.enable_min,
        }
    }
}

/// The size of the buffer for the next file: what the measured speed asks for,
/// or the present size where nothing was measured, within the limits.
pub fn adapt_buf_size(current: usize, measured: Option<usize>, min_size: usize, max_size: usize)
    -> (r: usize)
    ensures
        r == most(
            min_size as int,
            least(
                max_size as int,
                match measured {
                    Some(desired) => desired as int,
                    None => current as int,
                },
            ),
        ),
        min_size <= max_size ==> min_size <= r <= max_size,
{
    let desired: usize = match measured {
        Some(n) => n,
        None => current,
    };
    let capped: usize = if desired < max_size {
        desired
    } else {
        max_size
    };
    if capped < min_size {
        min_size
    } else {
        capped
    }
}

/// Files are read ahead from 128 KiB on, into buffers from 64 KiB to 8 MiB that
/// are to be written in 150 milliseconds each, of which four may wait.
pub proof fn reading_ahead_has_its_limits()
    ensures
        ({
            let c = PipelineConfig::standard();
            &&& c.enable_min == 128 * 1024
            &&& c.min_size == 64 * 1024
            &&& c.max_size == 8 * 1024 * 1024
            &&& c.target_ms == 150
            &&& c.depth == 4
        }),
{
}

} // verus!
