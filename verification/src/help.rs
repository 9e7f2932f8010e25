//! The help text that documents the fields of a container configuration.

use vstd::prelude::*;
use vstd::string::*;

verus! {

/// The documentation of a field, `??` when it has none.
pub open spec fn doc_or_placeholder(doc: Option<String>) -> Seq<char> {
    match doc {
        Some(d) => d@,
        None => "??"@,
    }
}

/// For each field in order: its documentation on a line, then its name on a
/// line, then an empty line.
pub open spec fn config_help_spec(names: Seq<Seq<char>>, docs: Seq<Option<String>>) -> Seq<char>
    decreases names.len(),
{
    if names.len() == 0 {
        Seq::empty()
    } else {
        config_help_spec(names.drop_last(), docs) + doc_or_placeholder(docs[names.len() - 1])
            + "\n"@ + names.last() + "\n\n"@
    }
}

/// The help text for fields named `names` whose documentation is `docs`
/// (`docs[i]` documents `names[i]`).
pub fn render_config_help(names: &Vec<String>, docs: &Vec<Option<String>>) -> (text: String)
    requires
        names.len() <= docs.len(),
    ensures
        text@ == config_help_spec(names.deep_view(), docs@),
{
    let ghost all = names.deep_view();
    let mut text = String::new();
    let mut i: usize = 0;
    while i < names.len()
        invariant
            0 <= i <= names.len(),
            names.len() <= docs.len(),
            all == names.deep_view(),
            text@ == config_help_spec(all.take(i as int), docs@),
        decreases names.len() - i,
    {
        match &docs[i] {
            Some(d) => text.append(d.as_str()),
            None => text.append("??"),
        }
        text.append("\n");
        text.append(names[i].as_str());
        text.append("\n\n");
        proof {
            assert(all.take(i + 1).drop_last() =~= all.take(i as int));
            assert(all.take(i + 1).len() - 1 == i);
        }
        i = i + 1;
    }
    proof {
        assert(all.take(names.len() as int) =~= all);
    }
    text
}


/// The help text is one block per field, in order: the field's
/// documentation (its doc comment when it has one, `??` otherwise), a line
/// break, the field's name, and a blank line.
pub proof fn lemma_config_help_blocks(names: Seq<Seq<char>>, docs: Seq<Option<String>>)
    requires
        names.len() <= docs.len(),
    ensures
        config_help_spec(names, docs) == Seq::new(names.len(), |i: int|
            (match docs[i] {
                Some(d) => d@,
                None => "??"@,
            }) + "\n"@ + names[i] + "\n\n"@).flatten(),
    decreases names.len(),
{
    let blocks = Seq::new(names.len(), |i: int|
        (match docs[i] {
            Some(d) => d@,
            None => "??"@,
        }) + "\n"@ + names[i] + "\n\n"@);
    blocks.lemma_flatten_and_flatten_alt_are_equivalent();
    if names.len() > 0 {
        let init = names.drop_last();
        lemma_config_help_blocks(init, docs);
        let prev = Seq::new(init.len(), |i: int|
            (match docs[i] {
                Some(d) => d@,
                None => "??"@,
            }) + "\n"@ + init[i] + "\n\n"@);
        prev.lemma_flatten_and_flatten_alt_are_equivalent();
        assert(blocks.drop_last() =~= prev);
    } else {
        assert(blocks =~= Seq::<Seq<char>>::empty());
    }
}

} // verus!
