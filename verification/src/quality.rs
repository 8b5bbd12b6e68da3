//! Quality presets and the `yt-dlp` format filter that each one selects.

use vstd::prelude::*;

verus! {

/// The `yt-dlp` format filter for quality preset `quality`: 1 is 360p, 2 is
/// 480p, 4 is 1080p, and 3 and every other value is 720p at no more than 30
/// frames per second.
pub open spec fn format_filter_spec(quality: usize) -> Seq<char> {
    if quality == 1 {
        "best[height<=360][vcodec^=avc1][acodec!=none]/best[height<=360]"@
    } else if quality == 2 {
        "best[height<=480][vcodec^=avc1][acodec!=none]/best[height<=480]"@
    } else if quality == 4 {
        "bestvideo[height<=1080]+bestaudio/best[height<=1080]"@
    } else {
        "best[height<=720][fps<=30][vcodec^=avc1][acodec!=none]/best[height<=720][fps<=30]"@
    }
}

/// The `yt-dlp` format filter for quality preset `quality`.
pub fn format_filter_for_quality(quality: usize) -> (r: &'static str)
    ensures
        r@ == format_filter_spec(quality),
{
    if quality == 1 {
        "best[height<=360][vcodec^=avc1][acodec!=none]/best[height<=360]"
    } else if quality == 2 {
        "best[height<=480][vcodec^=avc1][acodec!=none]/best[height<=480]"
    } else if quality == 3 {
        "best[height<=720][fps<=30][vcodec^=avc1][acodec!=none]/best[height<=720][fps<=30]"
    } else if quality == 4 {
        "bestvideo[height<=1080]+bestaudio/best[height<=1080]"
    } else {
        "best[height<=720][fps<=30][vcodec^=avc1][acodec!=none]/best[height<=720][fps<=30]"
    }
}

/// Every value outside the presets 1 to 4 selects what the default preset 3 selects.
pub proof fn lemma_unknown_quality_is_default(quality: usize)
    requires
        !(1 <= quality <= 4),
    ensures
        format_filter_spec(quality) == format_filter_spec(3),
{
}

/// The quality and subtitle choices, kept so that the next video and a
/// replay use them without asking again.
pub struct PlaybackSettings {
    pub quality: usize,
    pub subtitles: bool,
}

impl PlaybackSettings {
    /// The settings for quality preset `quality` and subtitle mode
    /// `subtitle_mode` (1 is off, 2 is English subtitles).
    pub fn from_choices(quality: usize, subtitle_mode: usize) -> (s: PlaybackSettings)
        ensures
            s.quality == quality,
            s.subtitles == (subtitle_mode == 2),
    {
        PlaybackSettings { quality, subtitles: subtitle_mode == 2 }
    }

    /// The format filter for these settings' quality.
    pub fn format_filter(&self) -> (r: &'static str)
        ensures
            r@ == format_filter_spec(self.quality),
    {
        format_filter_for_quality(self.quality)
    }
}

} // verus!
