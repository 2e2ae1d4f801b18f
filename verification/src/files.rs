use vstd::prelude::*;
use vstd::string::*;
use crate::codes::texts;

verus! {

/// Somewhere in `path` stands a dot directly followed by `extension`.
pub open spec fn holds_extension(path: Seq<char>, extension: Seq<char>) -> bool {
    exists|i: int|
        0 <= i && i + 1 + extension.len() <= path.len() && path[i] == '.' && #[trigger] path.subrange(
            i + 1,
            i + 1 + extension.len(),
        ) == extension
}

/// `Path::extension` of the standard library, read as text: the part of
/// the path's file name after its last dot, if the path has a file name
/// with a dot in it that is not its first character. Where a file name
/// begins depends on the platform's path syntax, so the contract says only
/// what holds on every platform: an extension has no dot in it and stands
/// in the path directly behind a dot.
#[verifier::external_body]
pub fn get_extension(file: &str) -> (extension: Option<&str>)
    ensures
        extension.is_some() ==> !extension.unwrap()@.contains('.'),
        extension.is_some() ==> holds_extension(file@, extension.unwrap()@),
{
    match std::path::Path::new(file).extension() {
        Some(extension) => extension.to_str(),
        None => None,
    }
}

/// Whether two texts are the same, character by character.
pub fn same_text(a: &str, b: &str) -> (same: bool)
    ensures
        same == (a@ == b@),
{
    let len: usize = a.unicode_len();
    if len != b.unicode_len() {
        return false;
    }
    let mut i: usize = 0;
    while i < len
        invariant
            len == a@.len(),
            len == b@.len(),
            i <= len,
            forall|k: int| 0 <= k < i ==> a@[k] == b@[k],
        decreases len - i,
    {
        if a.get_char(i) != b.get_char(i) {
            return false;
        }
        i += 1;
    }
    assert(a@ =~= b@);
    true
}

/// Whether a file with this extension is wanted: it has one, and it is
/// exactly `wanted`.
pub fn has_extension(extension: Option<&str>, wanted: &str) -> (yes: bool)
    ensures
        yes == (extension.is_some() && extension.unwrap()@ == wanted@),
{
    match extension {
        Some(found) => same_text(found, wanted),
        None => false,
    }
}

/// The texts marked in `keep`, in their order.
pub open spec fn picked(texts: Seq<Seq<char>>, keep: Seq<bool>) -> Seq<Seq<char>>
    decreases texts.len(),
{
    if texts.len() == 0 || keep.len() != texts.len() {
        Seq::empty()
    } else if keep.last() {
        picked(texts.drop_last(), keep.drop_last()).push(texts.last())
    } else {
        picked(texts.drop_last(), keep.drop_last())
    }
}

/// Keeps the paths marked in `keep`, in their order.
pub fn select_files(files: &Vec<String>, keep: &Vec<bool>) -> (kept: Vec<String>)
    requires
        keep@.len() == files@.len(),
    ensures
        texts(kept@) == picked(texts(files@), keep@),
{
    let mut kept: Vec<String> = Vec::new();
    let mut i: usize = 0;
    proof {
        assert(texts(kept@) =~= picked(texts(files@.take(0)), keep@.take(0)));
    }
    while i < files.len()
        invariant
            keep@.len() == files@.len(),
            i <= files@.len(),
            texts(kept@) == picked(texts(files@.take(i as int)), keep@.take(i as int)),
        decreases files.len() - i,
    {
        let file = &files[i];
        proof {
            let before = texts(files@.take(i as int));
            let now = texts(files@.take(i + 1));
            assert(now =~= before.push(file@));
            assert(now.drop_last() =~= before);
            assert(keep@.take(i + 1).drop_last() =~= keep@.take(i as int));
        }
        if keep[i] {
            let ghost old_kept = kept@;
            kept.push(file.clone());
            proof {
                assert(texts(kept@) =~= texts(old_kept).push(file@));
            }
        }
        i += 1;
    }
    proof {
        assert(files@.take(i as int) =~= files@);
        assert(keep@.take(i as int) =~= keep@);
    }
    kept
}

/// Keeps the data files among `files`: the paths whose extension is
/// `dat`, in their order. Which paths those are is for `get_extension` to
/// say; whatever it says, the result is a selection from `files` that
/// keeps their order, and every selected path holds `.dat`.
pub fn data_files(files: &Vec<String>) -> (kept: Vec<String>)
    ensures
        exists|keep: Seq<bool>|
            {
                &&& keep.len() == files@.len()
                &&& texts(kept@) == #[trigger] picked(texts(files@), keep)
                &&& forall|i: int|
                    0 <= i < keep.len() && keep[i] ==> holds_extension(
                        #[trigger] texts(files@)[i],
                        "dat"@,
                    )
            },
{
    let mut keep: Vec<bool> = Vec::new();
    let mut i: usize = 0;
    while i < files.len()
        invariant
            i <= files@.len(),
            keep@.len() == i,
            forall|j: int|
                0 <= j < i && keep@[j] ==> holds_extension(#[trigger] texts(files@)[j], "dat"@),
        decreases files.len() - i,
    {
        let extension = get_extension(files[i].as_str());
        let wanted = has_extension(extension, "dat");
        proof {
            assert(texts(files@)[i as int] == files@[i as int]@);
        }
        keep.push(wanted);
        i += 1;
    }
    select_files(files, &keep)
}

} // verus!
