use vstd::prelude::*;

use crate::text::{str_eq, views};

verus! {

/// The interface language: the system's, or one chosen by its code.
#[derive(Clone, Debug)]
pub enum Language {
    System,
    Code(String),
}

/// A language as the code it was chosen by, or none for the system's language.
pub open spec fn language_view(l: Language) -> Option<Seq<char>> {
    match l {
        Language::System => None,
        Language::Code(c) => Some(c@),
    }
}

/// The language that a value of the language drop-down selects: `system` selects the
/// system's language, any other value the language with that code.
pub fn language_from_selection(value: &str) -> (res: Language)
    ensures
        language_view(res) == if value@ == "system"@ {
            None
        } else {
            Some(value@)
        },
{
    if str_eq(value, "system") {
        Language::System
    } else {
        Language::Code(value.to_owned())
    }
}

/// The drop-down value that shows a language as selected: `system` for the system's
/// language, its code otherwise.
pub fn language_selection(language: &Language) -> (res: String)
    ensures
        res@ == match language_view(*language) {
            None => "system"@,
            Some(c) => c,
        },
{
    match language {
        Language::System => "system".to_owned(),
        Language::Code(code) => code.clone(),
    }
}

/// The values of the language drop-down, in order: `system` first, then the code of
/// each available language as given.
pub fn language_items(language_ids: &Vec<String>) -> (res: Vec<String>)
    ensures
        views(res@) == seq!["system"@] + views(language_ids@),
{
    let mut items: Vec<String> = Vec::new();
    items.push("system".to_owned());
    let mut i: usize = 0;
    while i < language_ids.len()
        invariant
            i <= language_ids@.len(),
            views(items@) == seq!["system"@] + views(language_ids@).take(i as int),
        decreases language_ids@.len() - i,
    {
        let ghost before = items@;
        let id = language_ids[i].clone();
        items.push(id);
        assert(views(items@) =~= views(before).push(language_ids@[i as int]@));
        assert(views(language_ids@).take(i + 1) =~= views(language_ids@).take(i as int).push(
            language_ids@[i as int]@,
        ));
        assert(views(items@) =~= seq!["system"@] + views(language_ids@).take(i + 1));
        i = i + 1;
    }
    assert(views(language_ids@).take(language_ids@.len() as int) =~= views(language_ids@));
    items
}

/// Selecting the value that shows a language selects that language again, unless it is
/// the language whose code is `system`, which reads back as the system's language.
pub proof fn lemma_language_selection_round_trip(l: Language, value: Seq<char>)
    ensures
        (match language_view(l) {
            None => "system"@,
            Some(c) => c,
        }) == value && language_view(l) != Some("system"@) ==> (if value == "system"@ {
            None
        } else {
            Some(value)
        }) == language_view(l),
        (match (if value == "system"@ {
            None
        } else {
            Some(value)
        }) {
            None => "system"@,
            Some(c) => c,
        }) == value,
{
}

} // verus!
