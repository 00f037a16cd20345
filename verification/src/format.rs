//! The file extensions that stand for audio files.

use vstd::prelude::*;

verus! {

/// Whether files with this extension are audio files to a scan. Extensions
/// are compared as they are written: `MP3` is none of them.
pub open spec fn audio_extension(extension: Seq<char>) -> bool {
    ||| extension == "mp3"@
    ||| extension == "wav"@
    ||| extension == "flac"@
    ||| extension == "ogg"@
    ||| extension == "m4a"@
    ||| extension == "aac"@
}

/// Whether files with this extension are audio files to a scan.
pub fn is_audio_extension(extension: &str) -> (audio: bool)
    ensures
        audio == audio_extension(extension@),
{
    extension.eq("mp3") || extension.eq("wav") || extension.eq("flac") || extension.eq("ogg")
        || extension.eq("m4a") || extension.eq("aac")
}

} // verus!
