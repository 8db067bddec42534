//! Tracked repositories.
use vstd::prelude::*;
use crate::error::AppError;
use crate::text::{chars_of, spec_trim, string_of, trim_chars};

verus! {

/// A tracked image repository in a registry.
#[derive(Debug, Clone)]
pub struct Repo {
    pub id: u64,
    pub registry: String,
    pub name: String,
    pub active: bool,
}

/// What identifies a repository before it has an id.
#[derive(Debug, Clone)]
pub struct RepoEgg {
    pub registry: String,
    pub name: String,
}

/// Each field of a submitted form, trimmed; a field that is absent reads
/// as empty.
pub open spec fn form_field(value: Option<Seq<char>>) -> Seq<char> {
    match value {
        Some(v) => spec_trim(v),
        None => Seq::empty(),
    }
}

impl RepoEgg {
    /// The repository named by the "track a repo" form: both fields are
    /// required, and are taken trimmed.
    pub fn from_form(registry: Option<&str>, name: Option<&str>) -> (r: Result<RepoEgg, AppError>)
        ensures
            ({
                let reg = form_field(
                    match registry {
                        Some(v) => Some(v@),
                        None => None,
                    },
                );
                let nm = form_field(
                    match name {
                        Some(v) => Some(v@),
                        None => None,
                    },
                );
                match r {
                    Ok(egg) => reg.len() > 0 && nm.len() > 0 && egg.registry@ == reg && egg.name@
                        == nm,
                    Err(e) => (reg.len() == 0 || nm.len() == 0) && e == AppError::InvalidInput(
                        e->InvalidInput_0,
                    ) && e->InvalidInput_0@ == "registry and name are required"@,
                }
            }),
    {
        let reg = match registry {
            Some(v) => trim_chars(&chars_of(v)),
            None => Vec::new(),
        };
        let nm = match name {
            Some(v) => trim_chars(&chars_of(v)),
            None => Vec::new(),
        };
        if reg.len() == 0 || nm.len() == 0 {
            return Err(AppError::InvalidInput(string_of(&chars_of("registry and name are required"))));
        }
        Ok(RepoEgg { registry: string_of(&reg), name: string_of(&nm) })
    }
}

} // verus!
