//! The directory tree of constituency files: which entries of a listing
//! are walked, and how the files of the tree become one batch of records.

use crate::json::json_of;
use crate::record::{area_of, area_views, load_json, Area, AreaView, DecodeError};
use vstd::prelude::*;

verus! {

/// What an entry of a directory listing is.
#[derive(Clone, Copy, Debug, PartialEq, Eq, Structural)]
pub enum EntryKind {
    Directory,
    File,
    Other,
}

/// One entry of a directory listing.
#[derive(Debug, PartialEq)]
pub struct Entry {
    pub path: String,
    pub kind: EntryKind,
}

/// The characters of each string of a list.
pub open spec fn texts(strings: Seq<String>) -> Seq<Seq<char>> {
    Seq::new(strings.len(), |i: int| strings[i]@)
}

/// The paths of the entries of one kind, in the order of the listing.
pub open spec fn paths_of(entries: Seq<Entry>, kind: EntryKind) -> Seq<Seq<char>>
    decreases entries.len(),
{
    if entries.len() == 0 {
        Seq::empty()
    } else if entries.last().kind == kind {
        paths_of(entries.drop_last(), kind).push(entries.last().path@)
    } else {
        paths_of(entries.drop_last(), kind)
    }
}

fn select(entries: &Vec<Entry>, kind: EntryKind) -> (paths: Vec<String>)
    ensures
        texts(paths@) == paths_of(entries@, kind),
{
    let mut paths: Vec<String> = Vec::new();
    let mut i: usize = 0;
    assert(entries@.take(0) =~= Seq::<Entry>::empty());
    assert(texts(paths@) =~= paths_of(entries@.take(0), kind));
    while i < entries.len()
        invariant
            i <= entries.len(),
            texts(paths@) == paths_of(entries@.take(i as int), kind),
        decreases entries.len() - i,
    {
        let ghost before = texts(paths@);
        proof {
            assert(entries@.take(i + 1).drop_last() =~= entries@.take(i as int));
            assert(entries@.take(i + 1).last() == entries@[i as int]);
        }
        if entries[i].kind == kind {
            paths.push(entries[i].path.clone());
            assert(texts(paths@) =~= before.push(entries@[i as int].path@));
        }
        i += 1;
    }
    assert(entries@.take(entries.len() as int) =~= entries@);
    paths
}

/// The subdirectories among the entries of a listing, in order; entries of
/// any other kind are passed over.
pub fn subdirectories(entries: &Vec<Entry>) -> (paths: Vec<String>)
    ensures
        texts(paths@) == paths_of(entries@, EntryKind::Directory),
{
    select(entries, EntryKind::Directory)
}

/// The regular files among the entries of a listing, in order; entries of
/// any other kind, subdirectories too, are passed over.
pub fn regular_files(entries: &Vec<Entry>) -> (paths: Vec<String>)
    ensures
        texts(paths@) == paths_of(entries@, EntryKind::File),
{
    select(entries, EntryKind::File)
}

/// The record that the content of a file describes.
pub open spec fn record_of(content: Seq<u8>) -> Option<AreaView> {
    match json_of(content) {
        Some(v) => area_of(v),
        None => None,
    }
}

/// The contents of the files of one directory.
pub open spec fn contents_view(files: Seq<Vec<u8>>) -> Seq<Seq<u8>> {
    Seq::new(files.len(), |i: int| files[i]@)
}

/// The contents of the files of each subdirectory.
pub open spec fn tree_view(subdirs: Seq<Vec<Vec<u8>>>) -> Seq<Seq<Seq<u8>>> {
    Seq::new(subdirs.len(), |i: int| contents_view(subdirs[i]@))
}

/// The files of all subdirectories in one sequence: subdirectory after
/// subdirectory, each one's files in their order.
pub open spec fn flat(subdirs: Seq<Seq<Seq<u8>>>) -> Seq<Seq<u8>>
    decreases subdirs.len(),
{
    if subdirs.len() == 0 {
        Seq::empty()
    } else {
        flat(subdirs.drop_last()) + subdirs.last()
    }
}

/// Whether every file describes a record.
pub open spec fn all_decode(files: Seq<Seq<u8>>) -> bool {
    forall|i: int| 0 <= i < files.len() ==> record_of(#[trigger] files[i]) is Some
}

/// The records of the files, in order.
pub open spec fn records_of(files: Seq<Seq<u8>>) -> Seq<AreaView> {
    Seq::new(files.len(), |i: int| record_of(files[i])->Some_0)
}

/// Whether file `k` is the first that describes no record.
pub open spec fn first_bad(files: Seq<Seq<u8>>, k: int) -> bool {
    &&& 0 <= k < files.len()
    &&& record_of(files[k]) is None
    &&& forall|j: int| 0 <= j < k ==> record_of(#[trigger] files[j]) is Some
}

/// The error that belongs to a file that describes no record.
pub open spec fn error_for(content: Seq<u8>, e: DecodeError) -> bool {
    if json_of(content) is None {
        e is Malformed
    } else {
        e is Mismatch
    }
}

/// What walking a sequence of files gives: the batch of their records in
/// order, `None` in place of an empty batch, or the error of the first
/// file that describes no record.
pub open spec fn walked(files: Seq<Seq<u8>>, r: Result<Option<Seq<AreaView>>, DecodeError>) -> bool {
    if all_decode(files) {
        if files.len() == 0 {
            r == Ok::<Option<Seq<AreaView>>, DecodeError>(None)
        } else {
            r == Ok::<Option<Seq<AreaView>>, DecodeError>(Some(records_of(files)))
        }
    } else {
        r matches Err(e) && exists|k: int| first_bad(files, k) && error_for(files[k], e)
    }
}

/// The view of the result of a walk.
pub open spec fn batch_view(r: Result<Option<Vec<Area>>, DecodeError>) -> Result<
    Option<Seq<AreaView>>,
    DecodeError,
> {
    match r {
        Ok(Some(areas)) => Ok(Some(area_views(areas@))),
        Ok(None) => Ok(None),
        Err(e) => Err(e),
    }
}

/// Decodes the files in order and stops at the first that describes no
/// record; returns the records decoded so far, or that file's error.
fn decode_files(files: &Vec<Vec<u8>>, areas: &mut Vec<Area>) -> (r: Result<(), DecodeError>)
    ensures
        match r {
            Ok(()) => all_decode(contents_view(files@)) && area_views(final(areas)@)
                == area_views(old(areas)@) + records_of(contents_view(files@)),
            Err(e) => exists|k: int|
                first_bad(contents_view(files@), k) && error_for(contents_view(files@)[k], e),
        },
{
    let ghost contents = contents_view(files@);
    let ghost start = area_views(areas@);
    let mut i: usize = 0;
    assert(area_views(areas@) =~= start + records_of(contents.take(0)));
    while i < files.len()
        invariant
            i <= files.len(),
            contents == contents_view(files@),
            forall|j: int| 0 <= j < i ==> record_of(#[trigger] contents[j]) is Some,
            area_views(areas@) == start + records_of(contents.take(i as int)),
        decreases files.len() - i,
    {
        let ghost before = area_views(areas@);
        match load_json(files[i].as_slice()) {
            Ok(area) => {
                let ghost view = area@;
                areas.push(area);
                proof {
                    assert(record_of(contents[i as int]) == Some(view));
                    assert(area_views(areas@) =~= before.push(view));
                    assert(records_of(contents.take(i + 1)) =~= records_of(
                        contents.take(i as int),
                    ).push(view));
                }
            },
            Err(e) => {
                proof {
                    assert(record_of(contents[i as int]) is None);
                    assert(first_bad(contents, i as int));
                    assert(error_for(contents[i as int], e));
                }
                return Err(e);
            },
        }
        i += 1;
    }
    proof {
        assert(contents.take(files.len() as int) =~= contents);
    }
    Ok(())
}

/// Decodes the files of one subdirectory into a batch, in the order given.
/// The first file that describes no record fails the walk with its error;
/// a subdirectory without files gives `None`.
pub fn walk_json_files(files: &Vec<Vec<u8>>) -> (r: Result<Option<Vec<Area>>, DecodeError>)
    ensures
        walked(contents_view(files@), batch_view(r)),
{
    let mut areas: Vec<Area> = Vec::new();
    assert(area_views(areas@) =~= Seq::<AreaView>::empty());
    match decode_files(files, &mut areas) {
        Err(e) => Err(e),
        Ok(()) => {
            assert(area_views(areas@) =~= records_of(contents_view(files@)));
            if areas.is_empty() {
                Ok(None)
            } else {
                Ok(Some(areas))
            }
        },
    }
}

/// The files of a tree grown by one subdirectory.
pub proof fn lemma_flat_push(subdirs: Seq<Seq<Seq<u8>>>, last: Seq<Seq<u8>>)
    ensures
        flat(subdirs.push(last)) == flat(subdirs) + last,
{
    assert(subdirs.push(last).drop_last() =~= subdirs);
}

/// A tree in which no subdirectory holds a file has no files at all.
pub proof fn lemma_flat_empty(subdirs: Seq<Seq<Seq<u8>>>)
    requires
        forall|i: int| 0 <= i < subdirs.len() ==> (#[trigger] subdirs[i]).len() == 0,
    ensures
        flat(subdirs).len() == 0,
    decreases subdirs.len(),
{
    if subdirs.len() > 0 {
        lemma_flat_empty(subdirs.drop_last());
    }
}

/// Where the constituencies directory holds no subdirectory, or its
/// subdirectories hold no files, the walk gives `None`: there is nothing
/// to create.
pub proof fn lemma_nothing_to_create(
    subdirs: Seq<Seq<Seq<u8>>>,
    r: Result<Option<Seq<AreaView>>, DecodeError>,
)
    requires
        forall|i: int| 0 <= i < subdirs.len() ==> (#[trigger] subdirs[i]).len() == 0,
        walked(flat(subdirs), r),
    ensures
        r == Ok::<Option<Seq<AreaView>>, DecodeError>(None),
{
    lemma_flat_empty(subdirs);
}

/// Decodes the files of every subdirectory, subdirectory after
/// subdirectory, into one batch. The first file that describes no record
/// fails the walk with its error; a tree without files gives `None`.
pub fn walk_constituency_subdirs(subdirs: &Vec<Vec<Vec<u8>>>) -> (r: Result<
    Option<Vec<Area>>,
    DecodeError,
>)
    ensures
        walked(flat(tree_view(subdirs@)), batch_view(r)),
{
    let ghost tree = tree_view(subdirs@);
    let mut areas: Vec<Area> = Vec::new();
    let mut i: usize = 0;
    assert(tree.take(0) =~= Seq::<Seq<Seq<u8>>>::empty());
    assert(area_views(areas@) =~= records_of(flat(tree.take(0))));
    while i < subdirs.len()
        invariant
            i <= subdirs.len(),
            tree == tree_view(subdirs@),
            all_decode(flat(tree.take(i as int))),
            area_views(areas@) == records_of(flat(tree.take(i as int))),
        decreases subdirs.len() - i,
    {
        let ghost done = flat(tree.take(i as int));
        let ghost here = tree[i as int];
        proof {
            assert(tree.take(i + 1) =~= tree.take(i as int).push(here));
            lemma_flat_push(tree.take(i as int), here);
            assert(here == contents_view(subdirs@[i as int]@));
        }
        match decode_files(&subdirs[i], &mut areas) {
            Ok(()) => {
                proof {
                    let grown = done + here;
                    assert forall|j: int| 0 <= j < grown.len() implies record_of(
                        #[trigger] grown[j],
                    ) is Some by {
                        if j < done.len() {
                            assert(grown[j] == done[j]);
                        } else {
                            assert(grown[j] == here[j - done.len()]);
                        }
                    }
                    assert(records_of(grown) =~= records_of(done) + records_of(here));
                }
            },
            Err(e) => {
                proof {
                    let k = choose|k: int| first_bad(here, k) && error_for(here[k], e);
                    let grown = done + here;
                    let at = done.len() + k;
                    assert(grown[at] == here[k]);
                    assert forall|j: int| 0 <= j < at implies record_of(#[trigger] grown[j])
                        is Some by {
                        if j < done.len() {
                            assert(grown[j] == done[j]);
                        } else {
                            assert(grown[j] == here[j - done.len()]);
                        }
                    }
                    assert(first_bad(grown, at));
                    lemma_bad_file_stays_first(tree, i as int, at);
                }
                return Err(e);
            },
        }
        i += 1;
    }
    proof {
        assert(tree.take(subdirs.len() as int) =~= tree);
    }
    if areas.is_empty() {
        Ok(None)
    } else {
        Ok(Some(areas))
    }
}

/// The files of the first subdirectories of a tree are the first files of
/// the tree.
pub proof fn lemma_flat_prefix(tree: Seq<Seq<Seq<u8>>>, n: int)
    requires
        0 <= n <= tree.len(),
    ensures
        flat(tree.take(n)).len() <= flat(tree).len(),
        flat(tree.take(n)) == flat(tree).take(flat(tree.take(n)).len() as int),
    decreases tree.len() - n,
{
    if n == tree.len() {
        assert(tree.take(n) =~= tree);
        assert(flat(tree).take(flat(tree).len() as int) =~= flat(tree));
    } else {
        lemma_flat_prefix(tree, n + 1);
        assert(tree.take(n + 1) =~= tree.take(n).push(tree[n]));
        lemma_flat_push(tree.take(n), tree[n]);
        let longer = flat(tree.take(n + 1));
        assert(flat(tree.take(n)) =~= longer.take(flat(tree.take(n)).len() as int));
        assert(longer.take(flat(tree.take(n)).len() as int) =~= flat(tree).take(
            flat(tree.take(n)).len() as int,
        ));
    }
}

/// A file that is the first bad one among the files of the first
/// subdirectories is the first bad one of the whole tree.
pub proof fn lemma_bad_file_stays_first(tree: Seq<Seq<Seq<u8>>>, i: int, at: int)
    requires
        0 <= i < tree.len(),
        first_bad(flat(tree.take(i + 1)), at),
    ensures
        first_bad(flat(tree), at),
        flat(tree)[at] == flat(tree.take(i + 1))[at],
{
    lemma_flat_prefix(tree, i + 1);
    let part = flat(tree.take(i + 1));
    let whole = flat(tree);
    assert(part == whole.take(part.len() as int));
    assert(whole[at] == part[at]);
    assert forall|j: int| 0 <= j < at implies record_of(#[trigger] whole[j]) is Some by {
        assert(whole[j] == part[j]);
    }
}

} // verus!
