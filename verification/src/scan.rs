//! Finding the audio files below a directory.
//!
//! The walk is a state machine: the library decides which directory to read
//! next and what to keep of a listing; the caller reads the directories. The
//! entries still to be looked at are held in one list, in the order in which
//! a depth-first walk meets them, so the depth of the tree costs no stack.

use crate::format::{audio_extension, is_audio_extension};
use vstd::prelude::*;

verus! {

/// One entry of a directory, as the file system reports it.
#[derive(Debug)]
pub struct DirEntry {
    /// The path of the entry, as it is shown to the user.
    pub path: String,
    /// Whether the entry is a directory.
    pub is_dir: bool,
    /// The extension of the entry's name, where it has one.
    pub extension: Option<String>,
}

/// [`DirEntry`] as a mathematical value.
pub struct Entry {
    pub path: Seq<char>,
    pub is_dir: bool,
    pub extension: Option<Seq<char>>,
}

impl View for DirEntry {
    type V = Entry;

    open spec fn view(&self) -> Entry {
        Entry {
            path: self.path@,
            is_dir: self.is_dir,
            extension: match self.extension {
                Some(extension) => Some(extension@),
                None => None,
            },
        }
    }
}

impl Entry {
    /// Whether the entry is an audio file: no directory, and with an
    /// extension that stands for an audio format.
    pub open spec fn is_audio(self) -> bool {
        !self.is_dir && match self.extension {
            Some(extension) => audio_extension(extension),
            None => false,
        }
    }
}

impl DirEntry {
    /// Whether the entry is an audio file.
    pub fn is_audio(&self) -> (audio: bool)
        ensures
            audio == self@.is_audio(),
    {
        !self.is_dir && match &self.extension {
            Some(extension) => is_audio_extension(extension.as_str()),
            None => false,
        }
    }
}

/// Why a scan found nothing.
#[derive(Debug)]
pub enum ScanError {
    /// A path could not be read. The message names the cause.
    Io(String),
}

impl ScanError {
    /// The message of the error.
    pub open spec fn spec_message(self) -> Seq<char> {
        match self {
            ScanError::Io(message) => message@,
        }
    }

    /// The message of the error.
    pub fn message(&self) -> (text: &String)
        ensures
            text@ == self.spec_message(),
    {
        match self {
            ScanError::Io(message) => message,
        }
    }
}

/// What the file system says of the path at which a scan starts.
#[derive(Debug)]
pub enum PathKind {
    /// The path is a directory.
    Directory,
    /// The path is there, and is no directory.
    Other,
    /// The path is not there, or cannot be looked at. The message names the
    /// cause.
    Unreadable(String),
}

/// The views of a list of entries.
pub open spec fn entries(list: Seq<DirEntry>) -> Seq<Entry> {
    Seq::new(list.len(), |i: int| list[i]@)
}

/// A scan that waits for the listing of a directory.
#[derive(Debug)]
pub struct Scan {
    path: String,
    pending: Vec<DirEntry>,
    found: Vec<String>,
}

/// [`Scan`] as a mathematical value.
pub struct ScanModel {
    /// The directory whose listing the scan waits for.
    pub path: Seq<char>,
    /// The entries that were listed and not looked at yet, the next one
    /// first.
    pub remaining: Seq<Entry>,
    /// The audio files found so far.
    pub found: Seq<Seq<char>>,
}

impl View for Scan {
    type V = ScanModel;

    closed spec fn view(&self) -> ScanModel {
        ScanModel {
            path: self.path@,
            remaining: entries(self.pending@).reverse(),
            found: crate::text::texts(self.found@),
        }
    }
}

/// What a scan does next.
#[derive(Debug)]
pub enum ScanStep {
    /// Read the directory that the scan waits for, and hand it the listing.
    ReadDirectory(Scan),
    /// The scan is over: these are the audio files, or this went wrong.
    Finished(Result<Vec<String>, ScanError>),
}

/// [`ScanStep`] as a mathematical value. An error is its message.
pub enum StepModel {
    ReadDirectory(ScanModel),
    Finished(Result<Seq<Seq<char>>, Seq<char>>),
}

impl View for ScanStep {
    type V = StepModel;

    open spec fn view(&self) -> StepModel {
        match self {
            ScanStep::ReadDirectory(scan) => StepModel::ReadDirectory(scan@),
            ScanStep::Finished(Ok(files)) => StepModel::Finished(Ok(crate::text::texts(files@))),
            ScanStep::Finished(Err(error)) => StepModel::Finished(Err(error.spec_message())),
        }
    }
}

/// Looks at the remaining entries in turn: an audio file is kept, any other
/// file is passed over, and the first directory stops the scan until its
/// listing is there. With no entry left the scan is over.
pub open spec fn advance(remaining: Seq<Entry>, found: Seq<Seq<char>>) -> StepModel
    decreases remaining.len(),
{
    if remaining.len() == 0 {
        StepModel::Finished(Ok(found))
    } else {
        let entry = remaining[0];
        let rest = remaining.drop_first();
        if entry.is_dir {
            StepModel::ReadDirectory(ScanModel { path: entry.path, remaining: rest, found })
        } else if entry.is_audio() {
            advance(rest, found.push(entry.path))
        } else {
            advance(rest, found)
        }
    }
}

/// The start of a scan: a directory is read, any other path holds no audio
/// files, and a path that cannot be looked at is an error.
pub open spec fn start(root: Seq<char>, kind: PathKind) -> StepModel {
    match kind {
        PathKind::Directory => StepModel::ReadDirectory(
            ScanModel { path: root, remaining: Seq::empty(), found: Seq::empty() },
        ),
        PathKind::Other => StepModel::Finished(Ok(Seq::empty())),
        PathKind::Unreadable(message) => StepModel::Finished(Err(message@)),
    }
}

/// What a scan does with the listing of the directory it waited for: the
/// entries are looked at before those that remained; a failed read ends the
/// scan, and what was found is dropped.
pub open spec fn listed(scan: ScanModel, listing: Result<Seq<Entry>, Seq<char>>) -> StepModel {
    match listing {
        Ok(list) => advance(list + scan.remaining, scan.found),
        Err(message) => StepModel::Finished(Err(message)),
    }
}

/// The view of a listing.
pub open spec fn listing_model(listing: Result<Vec<DirEntry>, String>) -> Result<
    Seq<Entry>,
    Seq<char>,
> {
    match listing {
        Ok(list) => Ok(entries(list@)),
        Err(message) => Err(message@),
    }
}

/// Starts a scan at `root`.
pub fn scan_directory(root: String, kind: PathKind) -> (step: ScanStep)
    ensures
        step@ == start(root@, kind),
{
    match kind {
        PathKind::Directory => {
            let scan = Scan { path: root, pending: Vec::new(), found: Vec::new() };
            assert(scan@.remaining =~= Seq::<Entry>::empty());
            assert(scan@.found =~= Seq::<Seq<char>>::empty());
            ScanStep::ReadDirectory(scan)
        },
        PathKind::Other => {
            let files: Vec<String> = Vec::new();
            assert(crate::text::texts(files@) =~= Seq::<Seq<char>>::empty());
            ScanStep::Finished(Ok(files))
        },
        PathKind::Unreadable(message) => ScanStep::Finished(Err(ScanError::Io(message))),
    }
}

impl Scan {
    /// The directory to read.
    pub fn path(&self) -> (path: &String)
        ensures
            path@ == self@.path,
    {
        &self.path
    }

    /// Takes the listing of the directory that the scan waited for.
    pub fn listed(self, listing: Result<Vec<DirEntry>, String>) -> (step: ScanStep)
        ensures
            step@ == listed(self@, listing_model(listing)),
    {
        let ghost before = self@;
        let Scan { path: _, mut pending, mut found } = self;
        let mut list = match listing {
            Ok(list) => list,
            Err(message) => {
                return ScanStep::Finished(Err(ScanError::Io(message)));
            },
        };
        let ghost listed_entries = entries(list@);
        loop
            invariant
                entries(list@) == listed_entries.take(list@.len() as int),
                list@.len() <= listed_entries.len(),
                entries(pending@).reverse() == listed_entries.skip(list@.len() as int)
                    + before.remaining,
            ensures
                entries(pending@).reverse() == listed_entries + before.remaining,
            decreases list@.len(),
        {
            let ghost shorter = entries(pending@);
            let ghost longer = entries(list@);
            match list.pop() {
                Some(entry) => {
                    pending.push(entry);
                    proof {
                        let n = list@.len() as int;
                        assert(entries(list@) =~= listed_entries.take(n));
                        assert(entries(pending@) =~= shorter.push(entry@));
                        assert(entry@ == longer.last());
                        assert(shorter.push(entry@).reverse() =~= seq![entry@]
                            + shorter.reverse());
                        assert(listed_entries.skip(n) =~= seq![listed_entries[n]]
                            + listed_entries.skip(n + 1));
                    }
                },
                None => {
                    assert(listed_entries.skip(0) =~= listed_entries);
                    break ;
                },
            }
        }
        loop
            invariant
                before == self@,
                advance(entries(pending@).reverse(), crate::text::texts(found@)) == listed(
                    before,
                    listing_model(listing),
                ),
            decreases pending@.len(),
        {
            let ghost stack = entries(pending@);
            let ghost kept = crate::text::texts(found@);
            match pending.pop() {
                None => {
                    assert(stack.reverse() =~= Seq::<Entry>::empty());
                    return ScanStep::Finished(Ok(found));
                },
                Some(entry) => {
                    proof {
                        assert(entries(pending@) =~= stack.drop_last());
                        assert(stack.reverse()[0] == entry@);
                        assert(stack.reverse().drop_first() =~= entries(pending@).reverse());
                    }
                    if entry.is_dir {
                        return ScanStep::ReadDirectory(Scan { path: entry.path, pending, found });
                    }
                    if entry.is_audio() {
                        found.push(entry.path);
                        assert(crate::text::texts(found@) =~= kept.push(entry@.path));
                    }
                },
            }
        }
    }
}

} // verus!
