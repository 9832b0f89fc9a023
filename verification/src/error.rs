//! Errors shared across the library.

use vstd::prelude::*;

use crate::text::{join, owned};

verus! {

/// Domain errors. Outside inputs (commands, save files, content data) fail with
/// one of these and never panic.
#[derive(Debug, Clone, PartialEq, Eq)]
pub enum AppError {
    /// Content layer: loading failed, broken references, failed startup check.
    Content(String),
    /// Save layer: read or write failed, unrecoverable structure.
    Save(String),
    /// Command layer: a command cannot be executed.
    Command(String),
    /// Input/output failure, with the system's message.
    Io(String),
    /// JSON encoding or decoding failure, with the decoder's message.
    Json(String),
    /// YAML decoding failure, with the decoder's message.
    Yaml(String),
    /// Anything else.
    Other(String),
}

impl AppError {
    /// An `Other` error carrying `msg`.
    pub fn other(msg: String) -> (e: AppError)
        ensures
            e == AppError::Other(msg),
    {
        AppError::Other(msg)
    }

    /// The text shown to the player: the layer's prefix and the message.
    pub open spec fn spec_describe(&self) -> Seq<char> {
        match self {
            AppError::Content(m) => "内容错误: "@ + m@,
            AppError::Save(m) => "存档错误: "@ + m@,
            AppError::Command(m) => "指令错误: "@ + m@,
            AppError::Io(m) => "IO 错误: "@ + m@,
            AppError::Json(m) => "JSON 错误: "@ + m@,
            AppError::Yaml(m) => "YAML 错误: "@ + m@,
            AppError::Other(m) => m@,
        }
    }

    pub fn describe(&self) -> (r: String)
        ensures
            r@ == self.spec_describe(),
    {
        match self {
            AppError::Content(m) => join("内容错误: ", m.as_str()),
            AppError::Save(m) => join("存档错误: ", m.as_str()),
            AppError::Command(m) => join("指令错误: ", m.as_str()),
            AppError::Io(m) => join("IO 错误: ", m.as_str()),
            AppError::Json(m) => join("JSON 错误: ", m.as_str()),
            AppError::Yaml(m) => join("YAML 错误: ", m.as_str()),
            AppError::Other(m) => owned(m.as_str()),
        }
    }
}

} // verus!
