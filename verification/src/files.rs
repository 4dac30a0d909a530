//! Telling the MIDI files of a directory by their names.

use vstd::prelude::*;
use vstd::string::StringExecFns;

verus! {

/// What `std::path::Path::extension` finds in the path `name`.
pub uninterp spec fn path_extension(name: Seq<char>) -> Option<Seq<char>>;

/// The extension of the path `name`, by `std::path::Path::extension`,
/// whose result depends on the name alone.
#[verifier::external_body]
fn extension_of(name: &str) -> (r: Option<String>)
    ensures
        match r {
            Some(text) => path_extension(name@) == Some(text@),
            None => path_extension(name@) is None,
        },
{
    std::path::Path::new(name).extension().map(|e| e.to_string_lossy().into_owned())
}

/// Whether a file of this name counts as a MIDI file: its extension is
/// `mid`, in lower case.
pub open spec fn is_midi(name: Seq<char>) -> bool {
    path_extension(name) == Some("mid"@)
}

/// Those of `names` that name MIDI files, in their order.
pub open spec fn midi_names(names: Seq<Seq<char>>) -> Seq<Seq<char>>
    decreases names.len(),
{
    if names.len() == 0 {
        Seq::empty()
    } else if is_midi(names.last()) {
        midi_names(names.drop_last()).push(names.last())
    } else {
        midi_names(names.drop_last())
    }
}

/// The names of a list, each as contracts read it.
pub open spec fn name_views(names: Seq<String>) -> Seq<Seq<char>> {
    Seq::new(names.len(), |i: int| names[i]@)
}

/// Whether a file of this name counts as a MIDI file.
pub fn is_midi_name(name: &str) -> (r: bool)
    ensures
        r == is_midi(name@),
{
    match extension_of(name) {
        Some(text) => {
            let mid = String::from_str("mid");
            text == mid
        },
        None => false,
    }
}

/// Those of `names` that name MIDI files, in their order.
pub fn select_midis(names: &Vec<String>) -> (midis: Vec<String>)
    ensures
        name_views(midis@) == midi_names(name_views(names@)),
{
    let ghost all = name_views(names@);
    let mut midis: Vec<String> = Vec::new();
    let mut i: usize = 0;
    while i < names.len()
        invariant
            i <= names.len(),
            all == name_views(names@),
            name_views(midis@) == midi_names(all.take(i as int)),
        decreases names.len() - i,
    {
        proof {
            assert(all.take(i + 1).drop_last() =~= all.take(i as int));
        }
        if is_midi_name(names[i].as_str()) {
            let ghost before = name_views(midis@);
            midis.push(names[i].clone());
            proof {
                assert(name_views(midis@) =~= before.push(all[i as int]));
            }
        }
        i += 1;
    }
    proof {
        assert(all.take(i as int) =~= all);
    }
    midis
}

} // verus!
