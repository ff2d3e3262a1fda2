//! The operations an archive supports, and the verbs that select them.

use vstd::prelude::*;

verus! {

/// The possible ways to interact with an archive.
#[derive(Clone, Copy, Debug, PartialEq, Eq)]
pub enum Mode {
    /// Show this archive's contents.
    Content,
    /// Extract this archive's contents.
    Extraction,
    /// Remove this archive from the file system.
    Removal,
    /// Update this archive.
    Update,
}

/// Which mode a command verb selects, if any.
pub open spec fn verb_mode(s: Seq<char>) -> Option<Mode> {
    if s == "compress"@ || s == "create"@ || s == "edit"@ || s == "update"@ {
        Some(Mode::Update)
    } else if s == "content"@ || s == "info"@ || s == "list"@ || s == "show"@ {
        Some(Mode::Content)
    } else if s == "delete"@ || s == "remove"@ {
        Some(Mode::Removal)
    } else if s == "decompress"@ || s == "extract"@ || s == "uncompress"@ || s == "unpack"@ {
        Some(Mode::Extraction)
    } else {
        None
    }
}

/// What `describe` returns for each mode.
pub open spec fn description(m: Mode) -> Seq<char> {
    match m {
        Mode::Content => "archive content preview"@,
        Mode::Extraction => "archive extraction"@,
        Mode::Removal => "archive removal"@,
        Mode::Update => "archive update"@,
    }
}

impl Mode {
    /// The mode a command verb selects; an unknown verb is reported with
    /// the message naming it.
    pub fn parse(s: &str) -> (r: Result<Mode, String>)
        ensures
            match verb_mode(s@) {
                Some(m) => r == Ok::<Mode, String>(m),
                None => r is Err && r->Err_0@ == "'"@ + s@ + "' is not supported, yet"@,
            },
    {
        let v = s.to_owned();
        if v.eq(&String::from_str("compress")) || v.eq(&String::from_str("create")) || v.eq(
            &String::from_str("edit"),
        ) || v.eq(&String::from_str("update")) {
            Ok(Mode::Update)
        } else if v.eq(&String::from_str("content")) || v.eq(&String::from_str("info")) || v.eq(
            &String::from_str("list"),
        ) || v.eq(&String::from_str("show")) {
            Ok(Mode::Content)
        } else if v.eq(&String::from_str("delete")) || v.eq(&String::from_str("remove")) {
            Ok(Mode::Removal)
        } else if v.eq(&String::from_str("decompress")) || v.eq(&String::from_str("extract"))
            || v.eq(&String::from_str("uncompress")) || v.eq(&String::from_str("unpack")) {
            Ok(Mode::Extraction)
        } else {
            Err(String::from_str("'").concat(s).concat("' is not supported, yet"))
        }
    }

    /// A short description of the mode, for messages.
    pub fn describe(&self) -> (r: &'static str)
        ensures
            r@ == description(*self),
    {
        match self {
            Mode::Content => "archive content preview",
            Mode::Extraction => "archive extraction",
            Mode::Removal => "archive removal",
            Mode::Update => "archive update",
        }
    }
}

impl core::str::FromStr for Mode {
    type Err = String;

    fn from_str(s: &str) -> Result<Mode, String> {
        Mode::parse(s)
    }
}

} // verus!
