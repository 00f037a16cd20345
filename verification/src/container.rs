//! Reading what the `lofty` crate has parsed of an audio container.
//!
//! The caller opens and parses the file; the library takes the outcome. What
//! `lofty` parsed stays in its own types, [`TaggedFile`] and [`Tag`], which
//! are opaque here. Each accessor that the library uses has a wrapper whose
//! result is given a name; the verified code above the wrappers turns the
//! results into plain values.

use lofty::file::{AudioFile, FileType, TaggedFile, TaggedFileExt};
use lofty::tag::{Accessor, ItemKey, Tag};
use vstd::prelude::*;

verus! {

/// A parsed audio file of `lofty`: its properties and its tags.
#[verifier::external_type_specification]
#[verifier::external_body]
pub struct ExTaggedFile(lofty::file::TaggedFile);

/// A tag of `lofty`: a list of items, each under a key, and a list of
/// pictures.
#[verifier::external_type_specification]
#[verifier::external_body]
pub struct ExTag(lofty::tag::Tag);

/// The keys under which a tag may hold several texts.
#[derive(Clone, Copy, Debug, PartialEq, Eq, Structural)]
pub enum ListKey {
    Artist,
    Genre,
    Composer,
    Comment,
}

/// What `FileProperties::duration` returns for the file's properties: whole
/// seconds, and the nanoseconds of the second begun.
pub uninterp spec fn file_duration(file: TaggedFile) -> (u64, u32);

/// What `FileProperties::sample_rate` returns for the file's properties.
pub uninterp spec fn file_sample_rate(file: TaggedFile) -> Option<u32>;

/// What `FileProperties::audio_bitrate` returns for the file's properties.
pub uninterp spec fn file_audio_bitrate(file: TaggedFile) -> Option<u32>;

/// Whether `TaggedFileExt::file_type` gives a custom type for the file: one
/// that is not built into `lofty`, but known to the process by a name.
pub uninterp spec fn file_is_custom(file: TaggedFile) -> bool;

/// What `TaggedFileExt::primary_tag` returns for a file of a built-in type:
/// the first of its tags that is of the kind that its type prefers. Of a file
/// of a custom type nothing is said.
pub uninterp spec fn file_primary_tag(file: TaggedFile) -> Option<Tag>;

/// What `TaggedFileExt::first_tag` returns for the file.
pub uninterp spec fn file_first_tag(file: TaggedFile) -> Option<Tag>;

/// What `Tag::get_strings` yields for the tag and the key: the texts of the
/// items under that key, in the tag's order.
pub uninterp spec fn tag_strings(tag: Tag, key: ListKey) -> Seq<Seq<char>>;

/// What `Accessor::title` returns for the tag.
pub uninterp spec fn tag_title(tag: Tag) -> Option<Seq<char>>;

/// What `Accessor::album` returns for the tag.
pub uninterp spec fn tag_album(tag: Tag) -> Option<Seq<char>>;

/// What `Tag::get_string` returns for the tag and the key of the album's
/// artist.
pub uninterp spec fn tag_album_artist(tag: Tag) -> Option<Seq<char>>;

/// What `Accessor::year` returns for the tag.
pub uninterp spec fn tag_year(tag: Tag) -> Option<u32>;

/// What `Accessor::track` returns for the tag.
pub uninterp spec fn tag_track(tag: Tag) -> Option<u32>;

/// What `Accessor::disk` returns for the tag.
pub uninterp spec fn tag_disk(tag: Tag) -> Option<u32>;

/// The pictures that the tag holds, each as its bytes, in the tag's order.
pub uninterp spec fn tag_pictures(tag: Tag) -> Seq<Seq<u8>>;

/// `TaggedFileExt::file_type`, told apart into custom and built-in.
#[verifier::external_body]
pub(crate) fn is_custom(file: &TaggedFile) -> (custom: bool)
    ensures
        custom == file_is_custom(*file),
{
    match file.file_type() {
        FileType::Custom(_) => true,
        _ => false,
    }
}

/// `FileProperties::duration` of the file's properties, as seconds and
/// nanoseconds.
#[verifier::external_body]
pub(crate) fn duration(file: &TaggedFile) -> (length: (u64, u32))
    ensures
        length == file_duration(*file),
{
    let length = file.properties().duration();
    (length.as_secs(), length.subsec_nanos())
}

/// `FileProperties::sample_rate` of the file's properties.
#[verifier::external_body]
pub(crate) fn sample_rate(file: &TaggedFile) -> (rate: Option<u32>)
    ensures
        rate == file_sample_rate(*file),
{
    file.properties().sample_rate()
}

/// `FileProperties::audio_bitrate` of the file's properties.
#[verifier::external_body]
pub(crate) fn audio_bitrate(file: &TaggedFile) -> (rate: Option<u32>)
    ensures
        rate == file_audio_bitrate(*file),
{
    file.properties().audio_bitrate()
}

/// `TaggedFileExt::primary_tag`: the tag of the kind that the format prefers,
/// if the file has one. For a custom type `lofty` looks the kind up under the
/// type's name, and panics where the process knows no such name: such files
/// are left out.
#[verifier::external_body]
pub(crate) fn primary_tag(file: &TaggedFile) -> (tag: Option<&Tag>)
    requires
        !file_is_custom(*file),
    ensures
        match tag {
            Some(t) => file_primary_tag(*file) == Some(*t),
            None => file_primary_tag(*file) is None,
        },
{
    file.primary_tag()
}

/// `TaggedFileExt::first_tag`: the first tag of the file, if it has any.
#[verifier::external_body]
pub(crate) fn first_tag(file: &TaggedFile) -> (tag: Option<&Tag>)
    ensures
        match tag {
            Some(t) => file_first_tag(*file) == Some(*t),
            None => file_first_tag(*file) is None,
        },
{
    file.first_tag()
}

/// `Tag::get_strings`: the texts of the items under the key.
#[verifier::external_body]
pub(crate) fn strings(tag: &Tag, key: ListKey) -> (list: Vec<String>)
    ensures
        crate::text::texts(list@) == tag_strings(*tag, key),
{
    let item_key = match key {
        ListKey::Artist => ItemKey::TrackArtist,
        ListKey::Genre => ItemKey::Genre,
        ListKey::Composer => ItemKey::Composer,
        ListKey::Comment => ItemKey::Comment,
    };
    tag.get_strings(&item_key).map(String::from).collect()
}

/// `Accessor::title`.
#[verifier::external_body]
pub(crate) fn title(tag: &Tag) -> (text: Option<String>)
    ensures
        crate::text::option_text(text) == tag_title(*tag),
{
    tag.title().map(String::from)
}

/// `Accessor::album`.
#[verifier::external_body]
pub(crate) fn album(tag: &Tag) -> (text: Option<String>)
    ensures
        crate::text::option_text(text) == tag_album(*tag),
{
    tag.album().map(String::from)
}

/// `Tag::get_string` with the key of the album's artist.
#[verifier::external_body]
pub(crate) fn album_artist(tag: &Tag) -> (text: Option<String>)
    ensures
        crate::text::option_text(text) == tag_album_artist(*tag),
{
    tag.get_string(&ItemKey::AlbumArtist).map(String::from)
}

/// `Accessor::year`.
#[verifier::external_body]
pub(crate) fn year(tag: &Tag) -> (number: Option<u32>)
    ensures
        number == tag_year(*tag),
{
    tag.year()
}

/// `Accessor::track`.
#[verifier::external_body]
pub(crate) fn track(tag: &Tag) -> (number: Option<u32>)
    ensures
        number == tag_track(*tag),
{
    tag.track()
}

/// `Accessor::disk`.
#[verifier::external_body]
pub(crate) fn disk(tag: &Tag) -> (number: Option<u32>)
    ensures
        number == tag_disk(*tag),
{
    tag.disk()
}

/// `Tag::pictures`: the number of pictures in the tag.
#[verifier::external_body]
pub(crate) fn picture_count(tag: &Tag) -> (count: usize)
    ensures
        count == tag_pictures(*tag).len(),
{
    tag.pictures().len()
}

/// `Tag::pictures` at `index`, then `Picture::data`: the bytes of that
/// picture.
#[verifier::external_body]
pub(crate) fn picture_data(tag: &Tag, index: usize) -> (data: Vec<u8>)
    requires
        index < tag_pictures(*tag).len(),
    ensures
        data@ == tag_pictures(*tag)[index as int],
{
    tag.pictures()[index].data().to_vec()
}

} // verus!
