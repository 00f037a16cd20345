//! From the attributes of one audio file, and what was parsed of it, to its
//! record.

use crate::container::{
    album, album_artist, audio_bitrate, disk, duration, file_audio_bitrate, file_duration,
    file_first_tag, file_is_custom, file_primary_tag, file_sample_rate, first_tag, is_custom,
    picture_count, picture_data, primary_tag, sample_rate, strings, tag_album,
    tag_album_artist, tag_disk, tag_pictures, tag_strings, tag_title, tag_track, tag_year, title,
    track, year, ListKey,
};
use crate::artwork::Artwork;
use crate::json::{encode_list, list_text};
use crate::record::{AudioFileRecord, Field};
use crate::text::{decimal, decimal_text, option_text, split, split_text, texts};
use lofty::file::TaggedFile;
use lofty::tag::Tag;
use vstd::prelude::*;
use vstd::string::StringExecFns;

verus! {

/// When a file was last modified, as the file system reports it.
#[derive(Clone, Copy, Debug, PartialEq, Eq, Structural)]
pub enum Timestamp {
    /// So many whole seconds after the epoch, and so many nanoseconds of the
    /// second begun.
    SinceEpoch { secs: u64, nanos: u32 },
    /// Some time before the epoch.
    BeforeEpoch,
}

/// The attributes of a file that go into its record.
#[derive(Clone, Copy, Debug, PartialEq, Eq, Structural)]
pub struct FileStat {
    /// The size of the file in bytes.
    pub size: u64,
    /// When the file was last modified.
    pub modified: Timestamp,
}

/// Why no record could be made.
#[derive(Debug)]
pub enum ExtractionError {
    /// The file system failed, or reported what cannot be used. The message
    /// names the cause.
    Io(String),
    /// The file is no audio container that the library reads. The message
    /// names the cause.
    Probe(String),
}

impl ExtractionError {
    /// The message of the error.
    pub open spec fn spec_message(self) -> Seq<char> {
        match self {
            ExtractionError::Io(message) => message@,
            ExtractionError::Probe(message) => message@,
        }
    }

    /// The message of the error.
    pub fn message(&self) -> (text: &String)
        ensures
            text@ == self.spec_message(),
    {
        match self {
            ExtractionError::Io(message) => message,
            ExtractionError::Probe(message) => message,
        }
    }
}

/// What a tag holds of the fields that go into a record.
#[derive(Debug)]
pub struct TagData {
    pub artists: Vec<String>,
    pub genres: Vec<String>,
    pub composers: Vec<String>,
    pub comments: Vec<String>,
    pub title: Option<String>,
    pub album: Option<String>,
    pub album_artist: Option<String>,
    pub year: Option<u32>,
    pub track: Option<u32>,
    pub disc: Option<u32>,
    /// The bytes of the first picture in the tag.
    pub cover: Option<Vec<u8>>,
}

/// [`TagData`] as a mathematical value.
pub struct TagModel {
    pub artists: Seq<Seq<char>>,
    pub genres: Seq<Seq<char>>,
    pub composers: Seq<Seq<char>>,
    pub comments: Seq<Seq<char>>,
    pub title: Option<Seq<char>>,
    pub album: Option<Seq<char>>,
    pub album_artist: Option<Seq<char>>,
    pub year: Option<u32>,
    pub track: Option<u32>,
    pub disc: Option<u32>,
    pub cover: Option<Seq<u8>>,
}

impl View for TagData {
    type V = TagModel;

    open spec fn view(&self) -> TagModel {
        TagModel {
            artists: texts(self.artists@),
            genres: texts(self.genres@),
            composers: texts(self.composers@),
            comments: texts(self.comments@),
            title: option_text(self.title),
            album: option_text(self.album),
            album_artist: option_text(self.album_artist),
            year: self.year,
            track: self.track,
            disc: self.disc,
            cover: match self.cover {
                Some(data) => Some(data@),
                None => None,
            },
        }
    }
}

/// What a parsed file holds of the fields that go into a record.
#[derive(Debug)]
pub struct AudioInfo {
    /// The whole seconds of the audio's length.
    pub duration_secs: u64,
    /// The nanoseconds of the last second begun.
    pub duration_nanos: u32,
    /// Samples per second.
    pub sample_rate: Option<u32>,
    /// Thousands of bits per second.
    pub bit_rate: Option<u32>,
    /// The tag that was chosen, where the file has one.
    pub tag: Option<TagData>,
}

/// [`AudioInfo`] as a mathematical value.
pub struct AudioModel {
    pub duration_secs: u64,
    pub duration_nanos: u32,
    pub sample_rate: Option<u32>,
    pub bit_rate: Option<u32>,
    pub tag: Option<TagModel>,
}

impl View for AudioInfo {
    type V = AudioModel;

    open spec fn view(&self) -> AudioModel {
        AudioModel {
            duration_secs: self.duration_secs,
            duration_nanos: self.duration_nanos,
            sample_rate: self.sample_rate,
            bit_rate: self.bit_rate,
            tag: match self.tag {
                Some(tag) => Some(tag@),
                None => None,
            },
        }
    }
}

/// What the library reads from one tag of `lofty`.
pub open spec fn tag_model(tag: Tag) -> TagModel {
    TagModel {
        artists: tag_strings(tag, ListKey::Artist),
        genres: tag_strings(tag, ListKey::Genre),
        composers: tag_strings(tag, ListKey::Composer),
        comments: tag_strings(tag, ListKey::Comment),
        title: tag_title(tag),
        album: tag_album(tag),
        album_artist: tag_album_artist(tag),
        year: tag_year(tag),
        track: tag_track(tag),
        disc: tag_disk(tag),
        cover: if tag_pictures(tag).len() > 0 {
            Some(tag_pictures(tag)[0])
        } else {
            None
        },
    }
}

/// The tag that is read: the one that the container prefers, else the first
/// one of the file, else none. A file of a custom type has no container that
/// prefers a tag: its first tag is read.
pub open spec fn chosen_tag(file: TaggedFile) -> Option<Tag> {
    if file_is_custom(file) {
        file_first_tag(file)
    } else {
        match file_primary_tag(file) {
            Some(tag) => Some(tag),
            None => file_first_tag(file),
        }
    }
}

/// What the library reads from one parsed file of `lofty`.
pub open spec fn audio_model(file: TaggedFile) -> AudioModel {
    AudioModel {
        duration_secs: file_duration(file).0,
        duration_nanos: file_duration(file).1,
        sample_rate: file_sample_rate(file),
        bit_rate: file_audio_bitrate(file),
        tag: match chosen_tag(file) {
            Some(tag) => Some(tag_model(tag)),
            None => None,
        },
    }
}

/// Reads from a tag the fields that go into a record. Of the pictures, the
/// first one counts.
pub fn read_tag(tag: &Tag) -> (data: TagData)
    ensures
        data@ == tag_model(*tag),
{
    let cover = if picture_count(tag) > 0 {
        Some(picture_data(tag, 0))
    } else {
        None
    };
    TagData {
        artists: strings(tag, ListKey::Artist),
        genres: strings(tag, ListKey::Genre),
        composers: strings(tag, ListKey::Composer),
        comments: strings(tag, ListKey::Comment),
        title: title(tag),
        album: album(tag),
        album_artist: album_artist(tag),
        year: year(tag),
        track: track(tag),
        disc: disk(tag),
        cover,
    }
}

/// Reads from a parsed file its properties and the tag that is chosen.
pub fn read_file(file: &TaggedFile) -> (info: AudioInfo)
    ensures
        info@ == audio_model(*file),
{
    let length = duration(file);
    let preferred = if is_custom(file) {
        None
    } else {
        primary_tag(file)
    };
    let tag = match preferred {
        Some(tag) => Some(read_tag(tag)),
        None => match first_tag(file) {
            Some(tag) => Some(read_tag(tag)),
            None => None,
        },
    };
    AudioInfo {
        duration_secs: length.0,
        duration_nanos: length.1,
        sample_rate: sample_rate(file),
        bit_rate: audio_bitrate(file),
        tag,
    }
}

/// Thousandths of a second in a time given as seconds and nanoseconds; what
/// is left of a thousandth is dropped.
pub open spec fn millis(secs: u64, nanos: u32) -> nat {
    (secs * 1000 + nanos / 1_000_000) as nat
}

/// Exec form of [`millis`].
pub fn to_millis(secs: u64, nanos: u32) -> (total: u128)
    ensures
        total == millis(secs, nanos),
{
    (secs as u128) * 1000 + (nanos as u128) / 1_000_000
}

/// The artists of a record: a single text names several artists with `/`
/// between them; two or more texts are taken as they are.
pub open spec fn artist_texts(raw: Seq<Seq<char>>) -> Seq<Seq<char>> {
    if raw.len() == 1 {
        split_text(raw[0], '/')
    } else {
        raw
    }
}

/// Exec form of [`artist_texts`].
pub fn split_artists(raw: Vec<String>) -> (artists: Vec<String>)
    ensures
        texts(artists@) == artist_texts(texts(raw@)),
{
    if raw.len() == 1 {
        split(raw[0].as_str(), '/')
    } else {
        raw
    }
}

/// A text that may be absent, as a record shows it: absent is empty.
pub open spec fn text_or_empty(text: Option<Seq<char>>) -> Seq<char> {
    match text {
        Some(t) => t,
        None => Seq::<char>::empty(),
    }
}

/// A number that may be absent, as a record shows it: in decimal, and absent
/// is empty.
pub open spec fn number_or_empty(number: Option<u32>) -> Seq<char> {
    match number {
        Some(n) => decimal_text(n as nat),
        None => Seq::<char>::empty(),
    }
}

fn shown_text(text: Option<String>) -> (shown: String)
    ensures
        shown@ == text_or_empty(option_text(text)),
{
    match text {
        Some(t) => t,
        None => String::new(),
    }
}

fn shown_number(number: Option<u32>) -> (shown: String)
    ensures
        shown@ == number_or_empty(number),
{
    match number {
        Some(n) => decimal(n as u128),
        None => String::new(),
    }
}

/// The fields that come from the file system and from the audio stream.
/// The three first are always there; the rates only where the stream tells
/// them. The bit rate is in bits per second.
pub open spec fn property_fields(size: u64, modified: nat, audio: AudioModel) -> Map<
    Field,
    Seq<char>,
> {
    let fixed = Map::<Field, Seq<char>>::empty().insert(
        Field::Duration,
        decimal_text(millis(audio.duration_secs, audio.duration_nanos)),
    ).insert(Field::DateModified, decimal_text(modified)).insert(
        Field::FileSize,
        decimal_text(size as nat),
    );
    let sampled = match audio.sample_rate {
        Some(rate) => fixed.insert(Field::SampleRate, decimal_text(rate as nat)),
        None => fixed,
    };
    match audio.bit_rate {
        Some(rate) => sampled.insert(Field::BitRate, decimal_text((rate * 1000) as nat)),
        None => sampled,
    }
}

/// The fields that come from a tag. All ten are there whatever the tag
/// holds: a list that the tag lacks is an empty list, a text or a number that
/// it lacks is empty.
pub open spec fn tag_fields(tag: TagModel) -> Map<Field, Seq<char>> {
    Map::<Field, Seq<char>>::empty().insert(
        Field::Artist,
        list_text(artist_texts(tag.artists)),
    ).insert(Field::Genre, list_text(tag.genres)).insert(
        Field::Composer,
        list_text(tag.composers),
    ).insert(Field::Comments, list_text(tag.comments)).insert(
        Field::Title,
        text_or_empty(tag.title),
    ).insert(Field::Album, text_or_empty(tag.album)).insert(
        Field::AlbumArtist,
        text_or_empty(tag.album_artist),
    ).insert(Field::Year, number_or_empty(tag.year)).insert(
        Field::Track,
        number_or_empty(tag.track),
    ).insert(Field::Disc, number_or_empty(tag.disc))
}

/// The record of a file before its artwork is stored: the fields of the file
/// system and the stream, and those of the tag where there is one.
pub open spec fn record_model(size: u64, modified: nat, audio: AudioModel) -> Map<
    Field,
    Seq<char>,
> {
    match audio.tag {
        Some(tag) => property_fields(size, modified, audio).union_prefer_right(tag_fields(tag)),
        None => property_fields(size, modified, audio),
    }
}

/// Every record holds the length of the audio, the time of modification and
/// the size of the file, each in decimal, whether the file has a tag or not.
pub proof fn lemma_fixed_fields(size: u64, modified: nat, audio: AudioModel)
    ensures
        ({
            let record = record_model(size, modified, audio);
            &&& record.contains_key(Field::Duration)
            &&& record[Field::Duration] == decimal_text(
                millis(audio.duration_secs, audio.duration_nanos),
            )
            &&& record.contains_key(Field::DateModified)
            &&& record[Field::DateModified] == decimal_text(modified)
            &&& record.contains_key(Field::FileSize)
            &&& record[Field::FileSize] == decimal_text(size as nat)
        }),
{
}

/// Whether a field comes from the tag.
pub open spec fn is_tag_field(field: Field) -> bool {
    match field {
        Field::Title
        | Field::Artist
        | Field::Album
        | Field::AlbumArtist
        | Field::Composer
        | Field::Genre
        | Field::Comments
        | Field::Year
        | Field::Track
        | Field::Disc => true,
        _ => false,
    }
}

/// A record holds the ten fields of the tag exactly where the file has a
/// tag, and the field for the artwork never before the picture is stored.
pub proof fn lemma_tag_fields(size: u64, modified: nat, audio: AudioModel, field: Field)
    ensures
        !record_model(size, modified, audio).contains_key(Field::ArtworkUri),
        is_tag_field(field) ==> (record_model(size, modified, audio).contains_key(field)
            <==> audio.tag is Some),
{
}

/// The picture that goes with a file: the cover of its tag.
pub open spec fn cover_model(audio: AudioModel) -> Option<Seq<u8>> {
    match audio.tag {
        Some(tag) => tag.cover,
        None => None,
    }
}

/// What was extracted from one file: its record, still without the field for
/// the artwork, and the cover of its tag, if it has one, to be stored in the
/// cache.
#[derive(Debug)]
pub struct Extraction {
    pub record: AudioFileRecord,
    pub artwork: Option<Artwork>,
}

impl Extraction {
    /// The extraction holds what `audio` gives for a file of this size and
    /// time of modification.
    pub open spec fn matches(self, size: u64, modified: nat, audio: AudioModel) -> bool {
        &&& self.record@ == record_model(size, modified, audio)
        &&& match cover_model(audio) {
            Some(data) => self.artwork matches Some(artwork) && artwork@ == data,
            None => self.artwork is None,
        }
    }
}

/// Puts the fields of a tag into `record`.
fn insert_tag_fields(record: &mut AudioFileRecord, tag: TagData) -> (cover: Option<Vec<u8>>)
    ensures
        final(record)@ == old(record)@.union_prefer_right(tag_fields(tag@)),
        cover == tag.cover,
{
    let ghost model = tag@;
    let ghost before = record@;
    let TagData {
        artists,
        genres,
        composers,
        comments,
        title,
        album,
        album_artist,
        year,
        track,
        disc,
        cover,
    } = tag;
    let artists = split_artists(artists);
    record.insert(Field::Artist, encode_list(&artists));
    record.insert(Field::Genre, encode_list(&genres));
    record.insert(Field::Composer, encode_list(&composers));
    record.insert(Field::Comments, encode_list(&comments));
    record.insert(Field::Title, shown_text(title));
    record.insert(Field::Album, shown_text(album));
    record.insert(Field::AlbumArtist, shown_text(album_artist));
    record.insert(Field::Year, shown_number(year));
    record.insert(Field::Track, shown_number(track));
    record.insert(Field::Disc, shown_number(disc));
    assert(record@ =~= before.union_prefer_right(tag_fields(model)));
    cover
}

/// Makes the record of a file from its size, its time of modification in
/// thousandths of a second, and what was read from it.
pub fn build_record(size: u64, modified: u128, info: AudioInfo) -> (extraction: Extraction)
    ensures
        extraction.matches(size, modified as nat, info@),
{
    let ghost audio = info@;
    let AudioInfo { duration_secs, duration_nanos, sample_rate, bit_rate, tag } = info;
    let mut record = AudioFileRecord::new();
    record.insert(Field::Duration, decimal(to_millis(duration_secs, duration_nanos)));
    record.insert(Field::DateModified, decimal(modified));
    record.insert(Field::FileSize, decimal(size as u128));
    if let Some(rate) = sample_rate {
        record.insert(Field::SampleRate, decimal(rate as u128));
    }
    if let Some(rate) = bit_rate {
        record.insert(Field::BitRate, decimal((rate as u128) * 1000));
    }
    assert(record@ =~= property_fields(size, modified as nat, audio));
    let cover = match tag {
        Some(tag) => insert_tag_fields(&mut record, tag),
        None => None,
    };
    let artwork = match cover {
        Some(data) => Some(Artwork::new(data)),
        None => None,
    };
    Extraction { record, artwork }
}

/// The message for a file that was last modified before the epoch.
pub open spec fn before_epoch_text() -> Seq<char> {
    "the modification time is before the epoch"@
}

/// The time of modification in thousandths of a second after the epoch. A
/// time before the epoch is refused.
pub fn modified_millis(stat: &FileStat) -> (outcome: Result<u128, ExtractionError>)
    ensures
        match stat.modified {
            Timestamp::SinceEpoch { secs, nanos } => outcome == Ok::<u128, ExtractionError>(
                millis(secs, nanos) as u128,
            ),
            Timestamp::BeforeEpoch => outcome matches Err(ExtractionError::Io(message))
                && message@ == before_epoch_text(),
        },
{
    match stat.modified {
        Timestamp::SinceEpoch { secs, nanos } => Ok(to_millis(secs, nanos)),
        Timestamp::BeforeEpoch => Err(
            ExtractionError::Io(String::from_str("the modification time is before the epoch")),
        ),
    }
}

/// Extracts the record of one audio file from its attributes and from what
/// came of parsing it: the parsed file, or the message of the parser's error.
///
/// A file last modified before the epoch is refused with `Io`. Otherwise a
/// file that could not be parsed is refused with `Probe`, under the message
/// of the parser's error. Every other file has a record: with the fields of
/// its tag where it has one, without them where it has none.
pub fn extract_metadata(stat: &FileStat, probed: Result<TaggedFile, String>) -> (outcome: Result<
    Extraction,
    ExtractionError,
>)
    ensures
        match (stat.modified, probed) {
            (Timestamp::BeforeEpoch, _) => outcome matches Err(ExtractionError::Io(message))
                && message@ == before_epoch_text(),
            (Timestamp::SinceEpoch { .. }, Err(cause)) => outcome matches Err(
                ExtractionError::Probe(message),
            ) && message@ == cause@,
            (Timestamp::SinceEpoch { secs, nanos }, Ok(file)) => outcome matches Ok(extraction)
                && extraction.matches(stat.size, millis(secs, nanos), audio_model(file)),
        },
{
    let modified = match modified_millis(stat) {
        Ok(modified) => modified,
        Err(error) => {
            return Err(error);
        },
    };
    match probed {
        Ok(file) => Ok(build_record(stat.size, modified, read_file(&file))),
        Err(cause) => Err(ExtractionError::Probe(cause)),
    }
}

} // verus!
