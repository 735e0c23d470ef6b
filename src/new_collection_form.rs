//! State of the form that creates a collection.
use vstd::prelude::*;

verus! {

/// The field or button of the form that has the focus.
#[derive(Clone, Copy, Debug, PartialEq, Eq, Structural)]
pub enum FormFocus {
    Name,
    Description,
    Confirm,
    Cancel,
}

impl Default for FormFocus {
    fn default() -> (r: FormFocus)
        ensures
            r == FormFocus::Name,
    {
        FormFocus::Name
    }
}

/// What has been typed in the form, and where the focus is.
#[derive(Debug)]
pub struct FormState {
    pub name: String,
    pub description: String,
    pub focused_field: FormFocus,
}

impl Default for FormState {
    fn default() -> (r: FormState)
        ensures
            r.name@ == Seq::<char>::empty(),
            r.description@ == Seq::<char>::empty(),
            r.focused_field == FormFocus::Name,
    {
        FormState { name: String::new(), description: String::new(), focused_field: FormFocus::Name }
    }
}

impl FormState {
    /// Empties both fields and puts the focus back on the name.
    pub fn reset(&mut self)
        ensures
            final(self).name@ == Seq::<char>::empty(),
            final(self).description@ == Seq::<char>::empty(),
            final(self).focused_field == FormFocus::Name,
    {
        self.name = String::new();
        self.description = String::new();
        self.focused_field = FormFocus::Name;
    }
}

} // verus!
