//! Decisions taken on what the user typed or set: the delete confirmation and
//! the editor for `edit`.
use vstd::prelude::*;
use crate::error::TrackerError;
use crate::text::{trimmed, trim_text, eq_ascii_case, eq_ignore_ascii_case, owned};

verus! {

/// An answer confirms: trimmed, it is `y` or `yes` in any ASCII case.
pub open spec fn confirms(answer: Seq<char>) -> bool {
    eq_ascii_case(trimmed(answer), "y"@) || eq_ascii_case(trimmed(answer), "yes"@)
}

/// Whether an answer to the delete prompt confirms it.
pub fn is_confirmation(answer: &str) -> (r: bool)
    ensures
        r == confirms(answer@),
{
    let t = trim_text(answer);
    eq_ignore_ascii_case(t, "y") || eq_ignore_ascii_case(t, "yes")
}

/// An environment value names an editor: it is set and not blank.
pub open spec fn names_editor(v: Option<Seq<char>>) -> bool {
    v matches Some(t) && trimmed(t).len() > 0
}

/// The editor command for `edit`: `$EDITOR`, else `$VISUAL` (each trimmed,
/// a blank one counting as unset); refused when neither names one.
pub fn choose_editor(editor: Option<String>, visual: Option<String>) -> (r: Result<String, TrackerError>)
    ensures
        match r {
            Ok(cmd) => if names_editor(crate::issue::opt_text(editor)) {
                cmd@ == trimmed(editor.unwrap()@)
            } else {
                names_editor(crate::issue::opt_text(visual)) && cmd@ == trimmed(visual.unwrap()@)
            },
            Err(e) => e == TrackerError::NoEditor && !names_editor(crate::issue::opt_text(editor))
                && !names_editor(crate::issue::opt_text(visual)),
        },
{
    if let Some(e) = &editor {
        let t = trim_text(e.as_str());
        if !t.is_empty() {
            return Ok(owned(t));
        }
    }
    if let Some(v) = &visual {
        let t = trim_text(v.as_str());
        if !t.is_empty() {
            return Ok(owned(t));
        }
    }
    Err(TrackerError::NoEditor)
}

} // verus!
