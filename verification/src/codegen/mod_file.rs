use crate::error::GenError;
use crate::ident::{check_identifier, is_identifier};
use crate::results::{
    append_all, chars_result, lemma_append_all_error, lemma_append_all_step,
    lemma_append_all_whole,
};
use crate::text::{replace, replaced};
use vstd::prelude::*;
use vstd::string::*;

verus! {

/// What a directory holds under one name: a source file or a directory.
#[derive(Clone, Debug)]
pub struct Entry {
    /// The name of the module: that of the file without its extension.
    pub name: String,
    pub file: bool,
}

/// An entry of a directory as the contracts see it.
pub struct EntryView {
    pub name: Seq<char>,
    pub file: bool,
}

impl View for Entry {
    type V = EntryView;

    open spec fn view(&self) -> EntryView {
        EntryView { name: self.name@, file: self.file }
    }
}

/// The entries as the contracts see them.
pub open spec fn entry_views(entries: Seq<Entry>) -> Seq<EntryView> {
    entries.map_values(|e: Entry| e@)
}

/// The name of the module that the file or directory `file_name` holds: the name without
/// the extension of source files.
pub open spec fn module_name(file_name: Seq<char>) -> Seq<char> {
    replaced(file_name, ".rs"@, Seq::empty())
}

/// What the index says of a module: a file is declared and all that it holds is exported
/// again, and a directory is declared as a public module.
pub open spec fn entry_text(name: Seq<char>, file: bool) -> Seq<char> {
    if file {
        "mod "@ + name + ";\npub use "@ + name + "::*;\n"@
    } else {
        "pub mod "@ + name + ";\n"@
    }
}

/// What the index says of the entry, whose name has to be an identifier.
pub open spec fn entry_item(e: EntryView) -> Result<Seq<char>, GenError> {
    if is_identifier(e.name) {
        Ok(entry_text(e.name, e.file))
    } else {
        Err(GenError::InvalidIdentifier)
    }
}

/// The index of a directory: what it says of each entry, in the order of the entries.
pub open spec fn index_text(entries: Seq<EntryView>) -> Result<Seq<char>, GenError> {
    append_all(entries, |e: EntryView| entry_item(e))
}

impl Entry {
    /// The entry for what a directory holds under `file_name`.
    pub fn from_file_name(file_name: &str, is_file: bool) -> (r: Entry)
        ensures
            r@.name == module_name(file_name@),
            r@.file == is_file,
    {
        let name = replace(file_name, ".rs", "");
        proof {
            reveal_strlit("");
            assert(""@ =~= Seq::<char>::empty());
        }
        Entry { name, file: is_file }
    }
}

/// Writes what the index says of a module.
pub fn emit_entry(name: &str, file: bool) -> (r: String)
    ensures
        r@ == entry_text(name@, file),
{
    if file {
        let mut out = "mod ".to_owned();
        out.append(name);
        out.append(";\npub use ");
        out.append(name);
        out.append("::*;\n");
        out
    } else {
        let mut out = "pub mod ".to_owned();
        out.append(name);
        out.append(";\n");
        out
    }
}

/// Writes what the index says of the entry.
pub fn gen_entry(entry: &Entry) -> (r: Result<String, GenError>)
    ensures
        chars_result(r) == entry_item(entry@),
{
    if check_identifier(entry.name.as_str()) {
        Ok(emit_entry(entry.name.as_str(), entry.file))
    } else {
        Err(GenError::InvalidIdentifier)
    }
}

/// Writes the index of a directory that holds `entries`.
pub fn gen_mod(entries: &Vec<Entry>) -> (r: Result<String, GenError>)
    ensures
        chars_result(r) == index_text(entry_views(entries@)),
{
    let ghost each = |e: EntryView| entry_item(e);
    let ghost items = entry_views(entries@);
    let mut out = String::new();
    let mut i: usize = 0;
    assert(items.take(0) =~= Seq::<EntryView>::empty());
    while i < entries.len()
        invariant
            i <= entries.len(),
            items == entry_views(entries@),
            each == |e: EntryView| entry_item(e),
            append_all(items.take(i as int), each) == Ok::<Seq<char>, GenError>(out@),
        decreases entries.len() - i,
    {
        proof {
            lemma_append_all_step(items, each, i as int);
            assert(items[i as int] == entries@[i as int]@);
        }
        match gen_entry(&entries[i]) {
            Err(e) => {
                proof {
                    lemma_append_all_error(items, each, i + 1);
                }
                return Err(e);
            },
            Ok(text) => {
                out.append(text.as_str());
            },
        }
        i += 1;
    }
    proof {
        lemma_append_all_whole(items, each);
    }
    Ok(out)
}

} // verus!
