//! Modal prompts for mkdir, rename and delete, and the validation of the
//! names typed into them.

use vstd::prelude::*;
use crate::models::panel::PanelKind;
use crate::text::{chars_of, contains_char, has_char, str_eq, trim, trim_spec};

verus! {

/// An open modal prompt.
#[derive(Debug, Clone)]
pub enum PromptDialog {
    Mkdir { panel: PanelKind, value: String },
    Rename { panel: PanelKind, old: String, new: String },
    ConfirmDelete { panel: PanelKind, names: Vec<String> },
}

impl PromptDialog {
    /// Prompt for the name of a new directory, starting empty.
    pub fn mkdir(panel: PanelKind) -> (r: Self)
        ensures
            r matches PromptDialog::Mkdir { panel: p, value } && p == panel && value@.len() == 0,
    {
        PromptDialog::Mkdir { panel, value: String::new() }
    }

    /// Prompt for a new name, starting from the old one.
    pub fn rename(panel: PanelKind, old: String) -> (r: Self)
        ensures
            r matches PromptDialog::Rename { panel: p, old: o, new: n } && p == panel && o@ == old@
                && n@ == old@,
    {
        PromptDialog::Rename { panel, old: old.clone(), new: old }
    }

    /// Confirmation before deleting `names`.
    pub fn confirm_delete(panel: PanelKind, names: Vec<String>) -> (r: Self)
        ensures
            r matches PromptDialog::ConfirmDelete { panel: p, names: ns } && p == panel && ns@
                == names@,
    {
        PromptDialog::ConfirmDelete { panel, names }
    }
}

/// Outcome of validating a name typed for a new or renamed entry: the
/// trimmed name, or the message shown to the user.
pub open spec fn validate_entry_name_spec(name: Seq<char>) -> Result<Seq<char>, Seq<char>> {
    let t = trim_spec(name);
    if t.len() == 0 {
        Err("el nombre no puede estar vacío"@)
    } else if t == "."@ || t == ".."@ {
        Err("nombre inválido"@)
    } else if has_char(t, '/') || has_char(t, '\\') {
        Err("el nombre no puede contener / o \\"@)
    } else {
        Ok(t)
    }
}

/// Checks a name typed for a new or renamed entry and returns it trimmed.
pub fn validate_entry_name(name: &str) -> (r: Result<String, String>)
    ensures
        match (r, validate_entry_name_spec(name@)) {
            (Ok(v), Ok(w)) => v@ == w,
            (Err(m), Err(w)) => m@ == w,
            _ => false,
        },
{
    let trimmed = trim(name);
    if trimmed.unicode_len() == 0 {
        return Err("el nombre no puede estar vacío".to_string());
    }
    if str_eq(trimmed, ".") || str_eq(trimmed, "..") {
        return Err("nombre inválido".to_string());
    }
    let cs = chars_of(trimmed);
    if contains_char(&cs, '/') || contains_char(&cs, '\\') {
        return Err("el nombre no puede contener / o \\".to_string());
    }
    Ok(trimmed.to_string())
}


/// A name that passes validation is not blank, is neither `.` nor `..`,
/// and holds no `/` or `\`: it names an entry inside the directory.
pub proof fn lemma_valid_name_stays_inside(name: Seq<char>)
    ensures
        validate_entry_name_spec(name) matches Ok(n) ==> n.len() > 0 && n != "."@ && n != ".."@ && !has_char(n, '/')
            && !has_char(n, '\\'),
{
}

/// Every name that is not blank once trimmed, is neither `.` nor `..` and
/// holds no `/` or `\` is accepted, and what is kept is the trimmed name.
pub proof fn lemma_plain_names_accepted(name: Seq<char>)
    requires
        trim_spec(name).len() > 0,
        trim_spec(name) != "."@,
        trim_spec(name) != ".."@,
        forall|i: int| 0 <= i < trim_spec(name).len() ==> #[trigger] trim_spec(name)[i] != '/' && trim_spec(name)[i] != '\\',
    ensures
        validate_entry_name_spec(name) == Ok::<Seq<char>, Seq<char>>(trim_spec(name)),
{
}

} // verus!
