//! From input paths to input files.
//!
//! The caller looks each input path up and reports what it found as an
//! `Entry`; for a directory the report holds one entry per name in it. The
//! functions here decide from such reports which files are the inputs of the
//! batch, and in which order.

use crate::error::{BatchError, BatchErrorView};
use crate::path::{join_path, joined_path};
use crate::text::texts;
use vstd::prelude::*;

verus! {

/// What was found under a name.
#[derive(Debug, PartialEq, Eq)]
pub enum Probe {
    /// Nothing is there, or it cannot be read.
    Missing,
    /// A regular file.
    File,
    /// Something that is neither a regular file nor a directory.
    Other,
    /// A directory, with what was found under each name in it.
    Directory(Vec<Entry>),
}

/// A name and what was found under it. The name of an input is the path as
/// it was given; the name of an entry of a directory is relative to it.
#[derive(Debug, PartialEq, Eq)]
pub struct Entry {
    pub name: String,
    pub probe: Probe,
}

/// The names of `entries`.
pub open spec fn entry_names(entries: Seq<Entry>) -> Seq<Seq<char>> {
    entries.map_values(|entry: Entry| entry.name@)
}

/// The files that `entries` of the directory `dir` contribute, in the order of
/// the entries. A file contributes its path. A directory contributes what its
/// own entries do, if it is an input itself (`top`) or the walk is
/// `recursive`; below that, directories are passed over. Nothing else
/// contributes.
pub open spec fn files_in(entries: Seq<Entry>, dir: Seq<char>, top: bool, recursive: bool) -> Seq<
    Seq<char>,
>
    decreases entries,
{
    if entries.len() == 0 {
        Seq::empty()
    } else {
        let entry = entries.last();
        let path = joined_path(dir, entry.name@);
        files_in(entries.drop_last(), dir, top, recursive) + match entry.probe {
            Probe::File => seq![path],
            Probe::Directory(children) => if top || recursive {
                files_in(children@, path, false, recursive)
            } else {
                Seq::empty()
            },
            Probe::Missing => Seq::empty(),
            Probe::Other => Seq::empty(),
        }
    }
}

/// The path of the first entry, in the order of the walk, that stops it: one
/// that is missing, or an input that is neither a file nor a directory.
pub open spec fn unreadable_in(
    entries: Seq<Entry>,
    dir: Seq<char>,
    top: bool,
    recursive: bool,
) -> Option<Seq<char>>
    decreases entries,
{
    if entries.len() == 0 {
        None
    } else {
        let entry = entries.last();
        let path = joined_path(dir, entry.name@);
        match unreadable_in(entries.drop_last(), dir, top, recursive) {
            Some(earlier) => Some(earlier),
            None => match entry.probe {
                Probe::File => None,
                Probe::Directory(children) => if top || recursive {
                    unreadable_in(children@, path, false, recursive)
                } else {
                    None
                },
                Probe::Missing => Some(path),
                Probe::Other => if top {
                    Some(path)
                } else {
                    None
                },
            },
        }
    }
}

/// The input files of a batch: the first path that stops the walk is
/// reported as not found; a walk that finds no file is an error that names
/// every input.
pub open spec fn resolution(inputs: Seq<Entry>, recursive: bool) -> Result<
    Seq<Seq<char>>,
    BatchErrorView,
> {
    match unreadable_in(inputs, Seq::empty(), true, recursive) {
        Some(path) => Err(BatchErrorView::NotFound { path }),
        None => if files_in(inputs, Seq::empty(), true, recursive).len() == 0 {
            Err(BatchErrorView::NoInputFiles { paths: entry_names(inputs) })
        } else {
            Ok(files_in(inputs, Seq::empty(), true, recursive))
        },
    }
}

/// What stops the walk of the first entries stops the walk of all of them.
pub proof fn unreadable_in_prefix(
    entries: Seq<Entry>,
    k: int,
    dir: Seq<char>,
    top: bool,
    recursive: bool,
)
    requires
        0 <= k <= entries.len(),
        unreadable_in(entries.take(k), dir, top, recursive) is Some,
    ensures
        unreadable_in(entries, dir, top, recursive) == unreadable_in(
            entries.take(k),
            dir,
            top,
            recursive,
        ),
    decreases entries.len() - k,
{
    if k < entries.len() {
        assert(entries.take(k + 1).drop_last() =~= entries.take(k));
        unreadable_in_prefix(entries, k + 1, dir, top, recursive);
    } else {
        assert(entries.take(k) =~= entries);
    }
}

/// Walks `entries` of the directory `dir` and appends the files found to `files`.
fn collect(
    entries: &Vec<Entry>,
    dir: &str,
    top: bool,
    recursive: bool,
    files: &mut Vec<String>,
) -> (r: Result<(), BatchError>)
    ensures
        match unreadable_in(entries@, dir@, top, recursive) {
            Some(path) => r matches Err(e) && e@ == (BatchErrorView::NotFound { path }),
            None => r is Ok && texts(final(files)@) == texts(old(files)@) + files_in(
                entries@,
                dir@,
                top,
                recursive,
            ),
        },
    decreases entries,
{
    let ghost before = texts(files@);
    let mut i: usize = 0;
    assert(entries@.take(0) =~= Seq::<Entry>::empty());
    while i < entries.len()
        invariant
            i <= entries.len(),
            unreadable_in(entries@.take(i as int), dir@, top, recursive) is None,
            texts(files@) == before + files_in(entries@.take(i as int), dir@, top, recursive),
        decreases entries.len() - i,
    {
        let entry = &entries[i];
        let path = join_path(dir, entry.name.as_str());
        let ghost seen = texts(files@);
        proof {
            let wider = entries@.take(i as int + 1);
            assert(wider.drop_last() =~= entries@.take(i as int));
            assert(wider.last() == entries@[i as int]);
        }
        match &entry.probe {
            Probe::File => {
                files.push(path);
                assert(texts(files@) =~= seen + seq![path@]);
            },
            Probe::Directory(children) => {
                if top || recursive {
                    match collect(children, path.as_str(), false, recursive, files) {
                        Ok(()) => {},
                        Err(error) => {
                            proof {
                                unreadable_in_prefix(entries@, i as int + 1, dir@, top, recursive);
                            }
                            return Err(error);
                        },
                    }
                }
            },
            Probe::Missing => {
                proof {
                    unreadable_in_prefix(entries@, i as int + 1, dir@, top, recursive);
                }
                return Err(BatchError::NotFound { path });
            },
            Probe::Other => {
                if top {
                    proof {
                        unreadable_in_prefix(entries@, i as int + 1, dir@, top, recursive);
                    }
                    return Err(BatchError::NotFound { path });
                }
            },
        }
        assert(texts(files@) =~= before + files_in(
            entries@.take(i as int + 1),
            dir@,
            top,
            recursive,
        ));
        i = i + 1;
    }
    assert(entries@.take(i as int) =~= entries@);
    Ok(())
}

/// The names of `entries`.
fn names_of(entries: &Vec<Entry>) -> (names: Vec<String>)
    ensures
        texts(names@) == entry_names(entries@),
{
    let mut names: Vec<String> = Vec::new();
    let mut i: usize = 0;
    while i < entries.len()
        invariant
            i <= entries.len(),
            names.len() == i,
            forall|j: int| 0 <= j < i ==> names[j]@ == entries[j].name@,
        decreases entries.len() - i,
    {
        names.push(entries[i].name.clone());
        i = i + 1;
    }
    assert(texts(names@) =~= entry_names(entries@));
    names
}

/// The input files of a batch, from what was found under each input path.
/// A file given twice, or reached through two inputs, is listed twice.
pub fn find_files(inputs: &Vec<Entry>, recursive: bool) -> (r: Result<Vec<String>, BatchError>)
    ensures
        match resolution(inputs@, recursive) {
            Ok(files) => r matches Ok(found) && texts(found@) == files,
            Err(error) => r matches Err(e) && e@ == error,
        },
{
    let mut files: Vec<String> = Vec::new();
    assert(texts(files@) =~= Seq::<Seq<char>>::empty());
    match collect(inputs, "", true, recursive, &mut files) {
        Err(error) => {
            proof {
                reveal_strlit("");
                assert(""@ =~= Seq::<char>::empty());
            }
            return Err(error);
        },
        Ok(()) => {},
    }
    proof {
        reveal_strlit("");
        assert(""@ =~= Seq::<char>::empty());
        assert(texts(files@) =~= files_in(inputs@, Seq::empty(), true, recursive));
    }
    if files.len() == 0 {
        return Err(BatchError::NoInputFiles { paths: names_of(inputs) });
    }
    Ok(files)
}

} // verus!
