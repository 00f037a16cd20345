//! The artwork cache: pictures stored under the name that their content
//! gives them.
//!
//! The library decides, the caller acts. Each step of storing a picture is a
//! value of its own type: it says what the caller has to do next, and takes
//! what came of it.

use crate::digest::{content_address, content_name};
use crate::extract::{Extraction, ExtractionError};
use crate::record::{AudioFileRecord, Field};
use vstd::prelude::*;

verus! {

/// The name of the cache's directory below the application's data directory.
pub fn cache_directory() -> (name: &'static str)
    ensures
        name@ == ".artwork-cache"@,
{
    ".artwork-cache"
}

/// A picture together with its content address.
#[derive(Debug)]
pub struct Artwork {
    name: String,
    data: Vec<u8>,
}

impl View for Artwork {
    type V = Seq<u8>;

    /// The bytes of the picture.
    closed spec fn view(&self) -> Seq<u8> {
        self.data@
    }
}

impl Artwork {
    #[verifier::type_invariant]
    spec fn addressed(self) -> bool {
        self.name@ == content_name(self.data@)
    }

    /// The picture with these bytes.
    pub fn new(data: Vec<u8>) -> (artwork: Artwork)
        ensures
            artwork@ == data@,
    {
        let name = content_address(&data);
        Artwork { name, data }
    }

    /// The content address of the picture: the name of its file in the cache.
    pub fn name(&self) -> (name: &String)
        ensures
            name@ == content_name(self@),
    {
        proof {
            use_type_invariant(self);
        }
        &self.name
    }

    /// The bytes of the picture.
    pub fn data(&self) -> (data: &Vec<u8>)
        ensures
            data@ == self@,
    {
        &self.data
    }
}

/// A record that waits for its picture to be stored.
pub struct Pending {
    /// The record, still without the field for the artwork.
    pub record: Map<Field, Seq<char>>,
    /// The bytes of the picture.
    pub cover: Seq<u8>,
}

impl Pending {
    /// The record once the picture is known to be in the cache.
    pub open spec fn with_artwork(self) -> Map<Field, Seq<char>> {
        self.record.insert(Field::ArtworkUri, content_name(self.cover))
    }
}

/// The first step: the cache's directory has to be there.
#[derive(Debug)]
pub struct AwaitingDirectory {
    record: AudioFileRecord,
    artwork: Artwork,
}

/// The second step: is there a file with the picture's name already?
#[derive(Debug)]
pub struct AwaitingLookup {
    record: AudioFileRecord,
    artwork: Artwork,
}

/// The third step: the picture has to be written.
#[derive(Debug)]
pub struct AwaitingWrite {
    record: AudioFileRecord,
    artwork: Artwork,
}

/// What to do with an extraction.
#[derive(Debug)]
pub enum StoreStep {
    /// The file has no picture: the record is complete.
    Finished(AudioFileRecord),
    /// Create the cache's directory, with the directories above it, and
    /// report.
    CreateDirectory(AwaitingDirectory),
}

/// What to do after the lookup.
#[derive(Debug)]
pub enum LookupStep {
    /// The picture is in the cache: the record is complete.
    Finished(AudioFileRecord),
    /// Write the picture to a new file, and report.
    Write(AwaitingWrite),
}

/// [`StoreStep`] as a mathematical value.
pub enum StoreModel {
    Finished(Map<Field, Seq<char>>),
    CreateDirectory(Pending),
}

/// [`LookupStep`] as a mathematical value.
pub enum LookupModel {
    Finished(Map<Field, Seq<char>>),
    Write(Pending),
}

/// The first step for a record and the picture that goes with it: without a
/// picture the record is complete.
pub open spec fn begun(record: Map<Field, Seq<char>>, cover: Option<Seq<u8>>) -> StoreModel {
    match cover {
        Some(data) => StoreModel::CreateDirectory(Pending { record, cover: data }),
        None => StoreModel::Finished(record),
    }
}

/// The step after the directory: the lookup where it is there, the end of
/// the extraction where it could not be created.
pub open spec fn after_directory(pending: Pending, created: bool) -> Option<Pending> {
    if created {
        Some(pending)
    } else {
        None
    }
}

/// The step after the lookup: a picture that is there is never written
/// again.
pub open spec fn after_lookup(pending: Pending, found: bool) -> LookupModel {
    if found {
        LookupModel::Finished(pending.with_artwork())
    } else {
        LookupModel::Write(pending)
    }
}

/// The record after the write: a picture that could not be written is left
/// out of it.
pub open spec fn after_write(pending: Pending, stored: bool) -> Map<Field, Seq<char>> {
    if stored {
        pending.with_artwork()
    } else {
        pending.record
    }
}

/// The bytes of a picture that may be absent.
pub open spec fn option_cover(artwork: Option<Artwork>) -> Option<Seq<u8>> {
    match artwork {
        Some(found) => Some(found@),
        None => None,
    }
}

impl View for AwaitingDirectory {
    type V = Pending;

    closed spec fn view(&self) -> Pending {
        Pending { record: self.record@, cover: self.artwork@ }
    }
}

impl View for AwaitingLookup {
    type V = Pending;

    closed spec fn view(&self) -> Pending {
        Pending { record: self.record@, cover: self.artwork@ }
    }
}

impl View for AwaitingWrite {
    type V = Pending;

    closed spec fn view(&self) -> Pending {
        Pending { record: self.record@, cover: self.artwork@ }
    }
}

impl View for StoreStep {
    type V = StoreModel;

    open spec fn view(&self) -> StoreModel {
        match self {
            StoreStep::Finished(record) => StoreModel::Finished(record@),
            StoreStep::CreateDirectory(waiting) => StoreModel::CreateDirectory(waiting@),
        }
    }
}

impl View for LookupStep {
    type V = LookupModel;

    open spec fn view(&self) -> LookupModel {
        match self {
            LookupStep::Finished(record) => LookupModel::Finished(record@),
            LookupStep::Write(waiting) => LookupModel::Write(waiting@),
        }
    }
}

/// Begins to store the picture of an extraction. Without a picture there is
/// nothing to store.
pub fn begin_store(extraction: Extraction) -> (step: StoreStep)
    ensures
        step@ == begun(extraction.record@, option_cover(extraction.artwork)),
{
    let Extraction { record, artwork } = extraction;
    match artwork {
        Some(artwork) => StoreStep::CreateDirectory(AwaitingDirectory { record, artwork }),
        None => StoreStep::Finished(record),
    }
}

impl AwaitingDirectory {
    /// Takes what came of creating the directory. A failure ends the
    /// extraction with its message; a success leads to the lookup.
    pub fn directory_created(self, outcome: Result<(), String>) -> (next: Result<
        AwaitingLookup,
        ExtractionError,
    >)
        ensures
            match outcome {
                Ok(_) => next matches Ok(lookup) && Some(lookup@) == after_directory(self@, true),
                Err(cause) => next matches Err(ExtractionError::Io(message)) && message@ == cause@,
            },
    {
        match outcome {
            Ok(_) => Ok(AwaitingLookup { record: self.record, artwork: self.artwork }),
            Err(cause) => Err(ExtractionError::Io(cause)),
        }
    }
}

impl AwaitingLookup {
    /// The name of the file to look for in the cache's directory.
    pub fn name(&self) -> (name: &String)
        ensures
            name@ == content_name(self@.cover),
    {
        self.artwork.name()
    }

    /// Takes what the lookup found. A file that is there is never written
    /// again.
    pub fn looked_up(self, found: bool) -> (step: LookupStep)
        ensures
            step@ == after_lookup(self@, found),
    {
        if found {
            let AwaitingLookup { mut record, artwork } = self;
            record.insert(Field::ArtworkUri, artwork.name().clone());
            LookupStep::Finished(record)
        } else {
            LookupStep::Write(AwaitingWrite { record: self.record, artwork: self.artwork })
        }
    }
}

impl AwaitingWrite {
    /// The name of the file to write in the cache's directory.
    pub fn name(&self) -> (name: &String)
        ensures
            name@ == content_name(self@.cover),
    {
        self.artwork.name()
    }

    /// The bytes to write.
    pub fn data(&self) -> (data: &Vec<u8>)
        ensures
            data@ == self@.cover,
    {
        self.artwork.data()
    }

    /// Takes what came of the write. A picture that could not be written is
    /// left out of the record; the extraction still succeeds.
    pub fn written(self, stored: bool) -> (record: AudioFileRecord)
        ensures
            record@ == after_write(self@, stored),
    {
        let AwaitingWrite { mut record, artwork } = self;
        if stored {
            record.insert(Field::ArtworkUri, artwork.name().clone());
        }
        record
    }
}

/// What a run of the steps leaves behind.
pub struct Stored {
    /// The files of the cache after the run: the content of each, by name.
    pub cache: Map<Seq<char>, Seq<u8>>,
    /// The record that the run ends with, or `None` where it ends with an
    /// error.
    pub record: Option<Map<Field, Seq<char>>>,
    /// Whether the run asked for a write.
    pub wrote: bool,
}

/// A run of the steps for one pending record, against a cache that holds the
/// files of `cache` and answers the lookup truthfully. `directory` tells
/// whether the directory can be created, `write` whether a write succeeds.
pub open spec fn store_run(
    cache: Map<Seq<char>, Seq<u8>>,
    pending: Pending,
    directory: bool,
    write: bool,
) -> Stored {
    let name = content_name(pending.cover);
    if !directory {
        Stored { cache, record: None, wrote: false }
    } else if cache.contains_key(name) {
        Stored { cache, record: Some(pending.with_artwork()), wrote: false }
    } else if write {
        Stored {
            cache: cache.insert(name, pending.cover),
            record: Some(pending.with_artwork()),
            wrote: true,
        }
    } else {
        Stored { cache, record: Some(pending.record), wrote: true }
    }
}

/// A run is what the steps make of it: the step after the directory, then
/// the step after a lookup that tells truly whether the cache holds a file of
/// the picture's name, then the record after the write. Only a write that
/// succeeds adds a file, under the picture's name and with its bytes.
pub proof fn lemma_run_follows_steps(
    cache: Map<Seq<char>, Seq<u8>>,
    record: Map<Field, Seq<char>>,
    cover: Seq<u8>,
    directory: bool,
    write: bool,
)
    ensures
        begun(record, Some(cover)) == StoreModel::CreateDirectory(Pending { record, cover }),
        store_run(cache, Pending { record, cover }, directory, write) == match after_directory(
            Pending { record, cover },
            directory,
        ) {
            None => Stored { cache, record: None, wrote: false },
            Some(waiting) => match after_lookup(
                waiting,
                cache.contains_key(content_name(waiting.cover)),
            ) {
                LookupModel::Finished(complete) => Stored {
                    cache,
                    record: Some(complete),
                    wrote: false,
                },
                LookupModel::Write(writing) => Stored {
                    cache: if write {
                        cache.insert(content_name(writing.cover), writing.cover)
                    } else {
                        cache
                    },
                    record: Some(after_write(writing, write)),
                    wrote: true,
                },
            },
        },
{
}

/// Every file of the cache is named by its content.
pub open spec fn content_addressed(cache: Map<Seq<char>, Seq<u8>>) -> bool {
    forall|name: Seq<char>| #[trigger]
        cache.contains_key(name) ==> name == content_name(cache[name])
}

/// Storing is idempotent: after a run that stored the picture, a second run
/// for the same record asks for no write, leaves the cache as it is, and ends
/// with the same record, whose artwork is the content address of the picture.
pub proof fn lemma_store_is_idempotent(
    cache: Map<Seq<char>, Seq<u8>>,
    pending: Pending,
    write: bool,
)
    ensures
        ({
            let first = store_run(cache, pending, true, true);
            let second = store_run(first.cache, pending, true, write);
            &&& !second.wrote
            &&& second.cache == first.cache
            &&& second.record == first.record
            &&& first.record matches Some(record)
            &&& record.contains_key(Field::ArtworkUri)
            &&& record[Field::ArtworkUri] == content_name(pending.cover)
        }),
{
}

/// Pictures are addressed by their content: two records with the same
/// picture get the same artwork, and storing both adds at most one file to
/// the cache, the one named by the picture.
pub proof fn lemma_same_picture_same_artwork(
    cache: Map<Seq<char>, Seq<u8>>,
    one: Pending,
    other: Pending,
    write: bool,
)
    requires
        one.cover == other.cover,
    ensures
        ({
            let first = store_run(cache, one, true, true);
            let second = store_run(first.cache, other, true, write);
            &&& first.record matches Some(a)
            &&& second.record matches Some(b)
            &&& a[Field::ArtworkUri] == b[Field::ArtworkUri]
            &&& !second.wrote
            &&& second.cache == first.cache
            &&& second.cache.dom() == cache.dom().insert(content_name(one.cover))
        }),
{
    let first = store_run(cache, one, true, true);
    assert(first.cache.dom() =~= cache.dom().insert(content_name(one.cover)));
}

/// The cache only grows, and what it holds is never written again: every
/// file is there after a run as it was before. A cache whose files are named
/// by their content stays so.
pub proof fn lemma_cache_is_kept(
    cache: Map<Seq<char>, Seq<u8>>,
    pending: Pending,
    directory: bool,
    write: bool,
)
    ensures
        forall|name: Seq<char>| #[trigger]
            cache.contains_key(name) ==> {
                let after = store_run(cache, pending, directory, write).cache;
                after.contains_key(name) && after[name] == cache[name]
            },
        content_addressed(cache) ==> content_addressed(
            store_run(cache, pending, directory, write).cache,
        ),
{
}

} // verus!
