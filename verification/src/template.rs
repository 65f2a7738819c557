//! The template store: named texts, looked up by name.

use crate::error::{Failure, GenError};
use crate::text::same_text;
use vstd::prelude::*;

verus! {

/// A named text.
pub struct Template {
    pub name: String,
    pub text: String,
}

impl View for Template {
    type V = (Seq<char>, Seq<char>);

    open spec fn view(&self) -> (Seq<char>, Seq<char>) {
        (self.name@, self.text@)
    }
}

/// The templates that a run can use.
pub struct TemplateStore {
    pub templates: Vec<Template>,
}

impl View for TemplateStore {
    type V = Seq<(Seq<char>, Seq<char>)>;

    open spec fn view(&self) -> Seq<(Seq<char>, Seq<char>)> {
        self.templates@.map_values(|t: Template| t@)
    }
}

/// The text of the first template called `name`.
pub open spec fn template_text(store: Seq<(Seq<char>, Seq<char>)>, name: Seq<char>) -> Option<
    Seq<char>,
>
    decreases store.len(),
{
    if store.len() == 0 {
        None
    } else if store[0].0 == name {
        Some(store[0].1)
    } else {
        template_text(store.skip(1), name)
    }
}

impl TemplateStore {
    /// A store without templates.
    pub fn new() -> (store: TemplateStore)
        ensures
            store@ == Seq::<(Seq<char>, Seq<char>)>::empty(),
    {
        let store = TemplateStore { templates: Vec::new() };
        assert(store@ =~= Seq::<(Seq<char>, Seq<char>)>::empty());
        store
    }

    /// Puts a template behind those that the store holds.
    pub fn add(&mut self, name: &str, text: &str)
        ensures
            final(self)@ == old(self)@.push((name@, text@)),
    {
        self.templates.push(Template { name: name.to_owned(), text: text.to_owned() });
        assert(self@ =~= old(self)@.push((name@, text@)));
    }
}

/// Reads a template from the store.
pub fn read_template(store: &TemplateStore, name: &str) -> (r: Result<String, GenError>)
    ensures
        match template_text(store@, name@) {
            Some(text) => r matches Ok(found) && found@ == text,
            None => r matches Err(e) && e@ == (Failure::MissingTemplate(name@)),
        },
{
    let mut i: usize = 0;
    assert(store@.skip(0) == store@);
    while i < store.templates.len()
        invariant
            i <= store.templates.len(),
            template_text(store@, name@) == template_text(store@.skip(i as int), name@),
        decreases store.templates.len() - i,
    {
        let ghost rest = store@.skip(i as int);
        assert(rest[0] == store.templates@[i as int]@);
        assert(rest.skip(1) == store@.skip(i + 1));
        if same_text(store.templates[i].name.as_str(), name) {
            return Ok(store.templates[i].text.clone());
        }
        i += 1;
    }
    Err(GenError::MissingTemplate(name.to_owned()))
}

} // verus!
