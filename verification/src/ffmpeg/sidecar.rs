//! Where the FFmpeg binaries are, and what `ffmpeg -version` says.

use vstd::prelude::*;

use crate::error::CoreError;
use crate::text::{
    chars_of, find, find_exec, first_word, first_word_exec, slice_chars, starts_with,
    starts_with_exec, string_from_chars,
};

verus! {

/// Explicit binary locations; `None` means "look the name up on PATH".
#[derive(Debug, Clone)]
pub struct FfmpegConfig {
    pub ffmpeg_path: Option<String>,
    pub ffprobe_path: Option<String>,
}

/// The binary a configured path stands for, or the bare name by default.
pub open spec fn bin_or(path: Option<String>, default: Seq<char>) -> Seq<char> {
    match path {
        Some(p) => p@,
        None => default,
    }
}

impl FfmpegConfig {
    pub fn with_paths(ffmpeg: String, ffprobe: String) -> (c: FfmpegConfig)
        ensures
            c.ffmpeg_path == Some(ffmpeg),
            c.ffprobe_path == Some(ffprobe),
    {
        FfmpegConfig { ffmpeg_path: Some(ffmpeg), ffprobe_path: Some(ffprobe) }
    }

    /// The `ffmpeg` binary to run.
    pub fn ffmpeg_bin(&self) -> (s: &str)
        ensures
            s@ == bin_or(self.ffmpeg_path, "ffmpeg"@),
    {
        match &self.ffmpeg_path {
            Some(p) => p.as_str(),
            None => "ffmpeg",
        }
    }

    /// The `ffprobe` binary to run.
    pub fn ffprobe_bin(&self) -> (s: &str)
        ensures
            s@ == bin_or(self.ffprobe_path, "ffprobe"@),
    {
        match &self.ffprobe_path {
            Some(p) => p.as_str(),
            None => "ffprobe",
        }
    }
}

/// Whether FFmpeg could be run, which version it reported, and where it is.
#[derive(Debug, Clone)]
pub struct FfmpegStatus {
    pub available: bool,
    pub version: Option<String>,
    pub path: Option<String>,
}

/// The first line of a text, as `str::lines().next()` gives it: up to the
/// first `\n`, without a `\r` just before it; none for an empty text.
pub open spec fn first_line(s: Seq<char>) -> Option<Seq<char>> {
    if s.len() == 0 {
        None
    } else {
        match find(s, seq!['\n']) {
            None => Some(s),
            Some(k) => {
                let l = s.take(k);
                Some(if l.len() > 0 && l.last() == '\r' { l.drop_last() } else { l })
            },
        }
    }
}

/// The version word after `ffmpeg version ` on the first line.
pub open spec fn version_of(output: Seq<char>) -> Option<Seq<char>> {
    match first_line(output) {
        None => None,
        Some(l) => if starts_with(l, "ffmpeg version "@) {
            first_word(l.skip(("ffmpeg version "@).len() as int))
        } else {
            None
        },
    }
}

/// The version `ffmpeg -version` printed: `7.1.1` for
/// `ffmpeg version 7.1.1 Copyright ...`.
pub fn parse_version(output: &str) -> (r: Option<String>)
    ensures
        r matches Some(v) ==> version_of(output@) == Some(v@),
        r is None ==> version_of(output@) is None,
{
    let cs = chars_of(output);
    if cs.len() == 0 {
        return None;
    }
    let nl = ['\n'];
    assert(nl@ =~= seq!['\n']);
    let line: Vec<char> = match find_exec(cs.as_slice(), &nl) {
        None => cs,
        Some(k) => {
            let l = slice_chars(cs.as_slice(), 0, k);
            assert(l@ =~= output@.take(k as int));
            if l.len() > 0 && l[l.len() - 1] == '\r' {
                let m = slice_chars(l.as_slice(), 0, l.len() - 1);
                assert(m@ =~= l@.drop_last());
                m
            } else {
                l
            }
        },
    };
    let prefix = chars_of("ffmpeg version ");
    if !starts_with_exec(line.as_slice(), prefix.as_slice()) {
        return None;
    }
    let rest = slice_chars(line.as_slice(), prefix.len(), line.len());
    assert(rest@ =~= line@.skip(("ffmpeg version "@).len() as int));
    match first_word_exec(rest.as_slice()) {
        Some(w) => Some(string_from_chars(w.as_slice())),
        None => None,
    }
}

pub open spec fn not_available_message() -> Seq<char> {
    "FFmpeg is not available. Please install FFmpeg or check MANGO_FFMPEG_PATH."@
}

/// Fails unless the probed FFmpeg is usable.
pub fn ensure_ffmpeg(status: &FfmpegStatus) -> (r: Result<(), CoreError>)
    ensures
        r is Ok <==> status.available,
        !status.available ==> (r matches Err(CoreError::Ffmpeg(m)) && m@ == not_available_message()),
{
    if !status.available {
        return Err(CoreError::Ffmpeg(
            "FFmpeg is not available. Please install FFmpeg or check MANGO_FFMPEG_PATH.".to_owned(),
        ));
    }
    Ok(())
}

} // verus!
