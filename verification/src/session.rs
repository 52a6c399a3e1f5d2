//! The edit session: which field is selected, whether it is being edited,
//! and the live edit buffer. Navigation is inert while an edit is open;
//! only committing or cancelling leaves the editing state.

use vstd::prelude::*;
use crate::fields::{
    commit_field, field_name, next_field, prev_field, seed_buffer, spec_commit, spec_field_name,
    spec_next_field, spec_prev_field, spec_seed, FormField,
};
use crate::model::PlistData;

verus! {

/// The transient editing state over one loaded document.
pub struct EditSession {
    pub current_field: FormField,
    pub editing: bool,
    pub editing_field: Option<FormField>,
    pub edit_buffer: String,
}

impl EditSession {
    /// An edit is open exactly when the edited field is recorded.
    pub open spec fn wf(self) -> bool {
        self.editing <==> self.editing_field is Some
    }

    /// A fresh session: the first field selected, no edit open.
    pub fn new() -> (r: EditSession)
        ensures
            r.wf(),
            !r.editing,
            r.current_field == FormField::Label,
            r.edit_buffer@.len() == 0,
    {
        EditSession {
            current_field: FormField::Label,
            editing: false,
            editing_field: None,
            edit_buffer: String::new(),
        }
    }

    /// Moves the selection one field down, with wraparound; inert while an
    /// edit is open.
    pub fn select_next(&mut self)
        ensures
            final(self).wf() == old(self).wf(),
            old(self).editing ==> *final(self) == *old(self),
            !old(self).editing ==> *final(self) == (EditSession {
                current_field: spec_next_field(old(self).current_field),
                ..*old(self)
            }),
    {
        if !self.editing {
            self.current_field = next_field(self.current_field);
        }
    }

    /// Moves the selection one field up, with wraparound; inert while an
    /// edit is open.
    pub fn select_prev(&mut self)
        ensures
            final(self).wf() == old(self).wf(),
            old(self).editing ==> *final(self) == *old(self),
            !old(self).editing ==> *final(self) == (EditSession {
                current_field: spec_prev_field(old(self).current_field),
                ..*old(self)
            }),
    {
        if !self.editing {
            self.current_field = prev_field(self.current_field);
        }
    }

    /// The display name of the selected field.
    pub fn get_current_field_name(&self) -> (r: &str)
        ensures
            r@ == spec_field_name(self.current_field),
    {
        field_name(self.current_field)
    }

    /// The display name of the field under edit, or a fixed fallback name
    /// when no edit is open.
    pub fn get_editing_field_name(&self) -> (r: &str)
        ensures
            match self.editing_field {
                Some(f) => r@ == spec_field_name(f),
                None => r@ == "Unknown"@,
            },
    {
        match &self.editing_field {
            Some(f) => field_name(*f),
            None => "Unknown",
        }
    }

    /// Opens an edit on the selected field: the buffer is seeded from the
    /// field's current value.
    pub fn start_editing(&mut self, plist: &PlistData)
        ensures
            final(self).wf(),
            final(self).editing,
            final(self).editing_field == Some(old(self).current_field),
            final(self).current_field == old(self).current_field,
            final(self).edit_buffer@ == spec_seed(plist@, old(self).current_field),
    {
        self.editing = true;
        self.editing_field = Some(self.current_field);
        self.edit_buffer = seed_buffer(plist, self.current_field);
    }

    /// Appends one typed character to the buffer. The vim navigation keys
    /// stay inert during an edit and are not recorded.
    pub fn insert_char(&mut self, c: char)
        requires
            old(self).editing,
        ensures
            final(self).wf() == old(self).wf(),
            final(self).editing == old(self).editing,
            final(self).editing_field == old(self).editing_field,
            final(self).current_field == old(self).current_field,
            (c == 'j' || c == 'k' || c == 'g' || c == 'G') ==> final(self).edit_buffer@ == old(
                self,
            ).edit_buffer@,
            !(c == 'j' || c == 'k' || c == 'g' || c == 'G') ==> final(self).edit_buffer@ == old(
                self,
            ).edit_buffer@.push(c),
    {
        if c == 'j' || c == 'k' || c == 'g' || c == 'G' {
        } else {
            self.edit_buffer.push(c);
        }
    }

    /// Removes the last character of the buffer, if any.
    pub fn delete_char(&mut self)
        requires
            old(self).editing,
        ensures
            final(self).wf() == old(self).wf(),
            final(self).editing == old(self).editing,
            final(self).editing_field == old(self).editing_field,
            final(self).current_field == old(self).current_field,
            old(self).edit_buffer@.len() == 0 ==> final(self).edit_buffer@ == old(
                self,
            ).edit_buffer@,
            old(self).edit_buffer@.len() > 0 ==> final(self).edit_buffer@ == old(
                self,
            ).edit_buffer@.drop_last(),
    {
        let _ = self.edit_buffer.pop();
    }

    /// Discards the buffer and closes the edit; the document is untouched.
    pub fn cancel_editing(&mut self)
        ensures
            final(self).wf(),
            !final(self).editing,
            final(self).editing_field is None,
            final(self).edit_buffer@.len() == 0,
            final(self).current_field == old(self).current_field,
    {
        self.editing = false;
        self.editing_field = None;
        self.edit_buffer = String::new();
    }

    /// Commits the buffer through the edited field's kind into the document
    /// and closes the edit.
    pub fn save_field_edit(&mut self, plist: &mut PlistData)
        requires
            old(self).editing,
            old(self).wf(),
        ensures
            final(self).wf(),
            !final(self).editing,
            final(self).editing_field is None,
            final(self).edit_buffer@.len() == 0,
            final(self).current_field == old(self).current_field,
            final(plist)@ == spec_commit(
                old(plist)@,
                old(self).editing_field->0,
                old(self).edit_buffer@,
            ),
    {
        let f = match &self.editing_field {
            Some(f) => *f,
            None => {
                proof {
                    assert(false);
                }
                FormField::Label
            },
        };
        commit_field(plist, f, self.edit_buffer.as_str());
        self.editing = false;
        self.editing_field = None;
        self.edit_buffer = String::new();
    }
}

} // verus!
