//! The library's error type.  Every load failure carries the file it
//! came from; hook failures carry the command and its exit code; the
//! lock failure is its own variant so a concurrent build is reported
//! distinctly.  `message` renders the operator-facing text.

use vstd::prelude::*;

use crate::text::{dec_seq, dec_seq_signed, dec_string, dec_string_signed};

verus! {

/// Everything the pipeline can report.
#[derive(Debug, Clone)]
pub enum StapleError {
    /// The configuration file is missing: the folder was never initialized.
    ConfigNotFound,
    /// The configured theme name is empty or its template folder is absent.
    ThemeNotFound(String),
    /// A mandatory front-matter field is absent from a document.
    MissingField { file: String, field: String },
    /// The datetime field of a document does not parse.
    BadDate { file: String, raw: String },
    /// A metadata line of a document does not fit the grammar.
    Grammar { file: String, line: usize },
    /// A non-empty document with no metadata block at all.
    NoMetadata { file: String },
    /// A JSON envelope that could not be decoded.
    BadEnvelope { file: String, reason: String },
    /// A filesystem operation failed; the text comes from the caller.
    Io(String),
    /// The template engine failed; the text comes from the caller.
    Render(String),
    /// A hook command exited non-zero.
    Hook { command: String, code: Option<i32> },
    /// The build lock is already held, most likely by a concurrent build.
    LockTaken,
}

/// The operator-facing text of each error.
pub open spec fn message_spec(e: StapleError) -> Seq<char> {
    match e {
        StapleError::ConfigNotFound => "`Staple.toml` does not exist, try to run `staple init` before."@,
        StapleError::ThemeNotFound(t) => "theme "@ + t@ + " not found"@,
        StapleError::MissingField { file, field } => "error on loading article "@ + file@ + " : "@
            + field@ + " does not exist in article's metadata"@,
        StapleError::BadDate { file, raw } => "error on loading article "@ + file@
            + " : parse date error "@ + raw@,
        StapleError::Grammar { file, line } => "error on loading article "@ + file@
            + " : front matter grammar error at line "@ + dec_seq(line as int),
        StapleError::NoMetadata { file } => "error on loading article "@ + file@
            + " : no metadata block"@,
        StapleError::BadEnvelope { file, reason } => "cannot serde json file "@ + file@ + ": "@
            + reason@,
        StapleError::Io(t) => "io error "@ + t@,
        StapleError::Render(t) => "render error "@ + t@,
        StapleError::Hook { command, code } => "execute hook `"@ + command@
            + "` get non-zero exit code: "@ + dec_seq_signed(
            match code {
                Some(c) => c as int,
                None => -1,
            },
        ),
        StapleError::LockTaken => "cannot acquire the build lock: is another build in progress?"@,
    }
}

impl StapleError {
    /// Renders the error for the operator.
    pub fn message(&self) -> (r: String)
        ensures
            r@ == message_spec(*self),
    {
        match self {
            StapleError::ConfigNotFound => String::from_str(
                "`Staple.toml` does not exist, try to run `staple init` before.",
            ),
            StapleError::ThemeNotFound(t) => {
                let mut s = String::from_str("theme ");
                s.append(t.as_str());
                s.append(" not found");
                s
            },
            StapleError::MissingField { file, field } => {
                let mut s = String::from_str("error on loading article ");
                s.append(file.as_str());
                s.append(" : ");
                s.append(field.as_str());
                s.append(" does not exist in article's metadata");
                s
            },
            StapleError::BadDate { file, raw } => {
                let mut s = String::from_str("error on loading article ");
                s.append(file.as_str());
                s.append(" : parse date error ");
                s.append(raw.as_str());
                s
            },
            StapleError::Grammar { file, line } => {
                let mut s = String::from_str("error on loading article ");
                s.append(file.as_str());
                s.append(" : front matter grammar error at line ");
                let d = dec_string(*line as u64);
                s.append(d.as_str());
                s
            },
            StapleError::NoMetadata { file } => {
                let mut s = String::from_str("error on loading article ");
                s.append(file.as_str());
                s.append(" : no metadata block");
                s
            },
            StapleError::BadEnvelope { file, reason } => {
                let mut s = String::from_str("cannot serde json file ");
                s.append(file.as_str());
                s.append(": ");
                s.append(reason.as_str());
                s
            },
            StapleError::Io(t) => {
                let mut s = String::from_str("io error ");
                s.append(t.as_str());
                s
            },
            StapleError::Render(t) => {
                let mut s = String::from_str("render error ");
                s.append(t.as_str());
                s
            },
            StapleError::Hook { command, code } => {
                let mut s = String::from_str("execute hook `");
                s.append(command.as_str());
                s.append("` get non-zero exit code: ");
                let c: i64 = match code {
                    Some(c) => *c as i64,
                    None => -1,
                };
                let d = dec_string_signed(c);
                s.append(d.as_str());
                s
            },
            StapleError::LockTaken => String::from_str(
                "cannot acquire the build lock: is another build in progress?",
            ),
        }
    }
}

} // verus!
