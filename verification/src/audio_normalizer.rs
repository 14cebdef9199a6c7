//! Audio for channels: how a local file is reshaped into the bytes and the MIME type that the
//! target channel expects.
//!
//! WhatsApp gets Ogg/Opus voice notes, Telegram and Signal voice notes or files, and the other
//! channels the file as it is. This module reads probe reports, decides what is to be transcoded
//! and how, and measures waveforms; its caller runs `ffprobe` and `ffmpeg`.

use vstd::prelude::*;
use vstd::string::*;

use crate::file_names;
use crate::json;
use crate::json::{Json, JsonTree};
use crate::text;

verus! {

/// The largest source, in bytes, that is accepted.
pub const MAX_SOURCE_BYTES: u64 = 67_108_864;

/// How long a transcode may take, in seconds.
pub const FFMPEG_TIMEOUT_SECS: u64 = 60;

/// The MIME type of a voice note.
pub const VOICE_NOTE_MIME: &'static str = "audio/ogg; codecs=opus";

// ---------------------------------------------------------------------------
// Channels and options
// ---------------------------------------------------------------------------

/// The channels that have a profile of their own.
#[derive(Debug, Clone, Copy, PartialEq, Eq, Structural)]
pub enum ChannelProfile {
    /// Voice notes only: Ogg/Opus, mono.
    WhatsApp,
    /// Voice notes (Ogg/Opus, mono) or music files.
    Telegram,
    /// Voice notes (Ogg/Opus, mono) or attachments.
    Signal,
    /// Attachments.
    Slack,
    /// Attachments.
    Discord,
    /// Everything else: the file as it is.
    Unknown,
}

/// The profile of a channel, by its name in lowercase without surrounding white space.
pub open spec fn profile_named(name: Seq<char>) -> ChannelProfile {
    if name == "whatsapp"@ || name == "wa"@ || name == "whatsapp-web"@ || name == "whatsapp_web"@ {
        ChannelProfile::WhatsApp
    } else if name == "telegram"@ || name == "tg"@ {
        ChannelProfile::Telegram
    } else if name == "signal"@ {
        ChannelProfile::Signal
    } else if name == "slack"@ {
        ChannelProfile::Slack
    } else if name == "discord"@ {
        ChannelProfile::Discord
    } else {
        ChannelProfile::Unknown
    }
}

/// The profile of a channel.
pub open spec fn profile_of(channel: Seq<char>) -> ChannelProfile {
    profile_named(text::ascii_lowered(text::trimmed(channel)))
}

impl ChannelProfile {
    /// The profile of a channel, by its name in any case. A name that is not known is no error:
    /// its files pass through.
    pub fn from_channel(channel: &str) -> (r: ChannelProfile)
        ensures
            r == profile_of(channel@),
    {
        let name = text::to_ascii_lowercase(text::trim(channel).as_str());
        let n = name.as_str();
        if text::same_text(n, "whatsapp") || text::same_text(n, "wa") || text::same_text(
            n,
            "whatsapp-web",
        ) || text::same_text(n, "whatsapp_web") {
            ChannelProfile::WhatsApp
        } else if text::same_text(n, "telegram") || text::same_text(n, "tg") {
            ChannelProfile::Telegram
        } else if text::same_text(n, "signal") {
            ChannelProfile::Signal
        } else if text::same_text(n, "slack") {
            ChannelProfile::Slack
        } else if text::same_text(n, "discord") {
            ChannelProfile::Discord
        } else {
            ChannelProfile::Unknown
        }
    }
}

/// The form that the caller wants.
#[derive(Debug, Clone, Copy, PartialEq, Eq, Structural)]
pub enum DeliveryMode {
    /// The profile decides: WhatsApp always sends voice notes, Telegram and Signal where the
    /// source is short and mono.
    Auto,
    /// A voice note: what needs transcoding becomes Ogg/Opus, mono, 16 kHz.
    VoiceNote,
    /// A music or audio file.
    MusicFile,
}

impl Default for DeliveryMode {
    fn default() -> (r: DeliveryMode)
        ensures
            r == DeliveryMode::Auto,
    {
        DeliveryMode::Auto
    }
}

/// What the caller may ask for.
#[derive(Debug, Clone)]
pub struct NormalizeOptions {
    pub delivery: DeliveryMode,
    /// A caption; it names the file where nothing else does.
    pub caption: Option<String>,
    /// A file name, in place of the source's own.
    pub filename: Option<String>,
}

impl Default for NormalizeOptions {
    fn default() -> (r: NormalizeOptions)
        ensures
            r.delivery == DeliveryMode::Auto,
            r.caption is None,
            r.filename is None,
    {
        NormalizeOptions { delivery: DeliveryMode::Auto, caption: None, filename: None }
    }
}

/// A file that is ready for upload, with what the channel has to know of it.
#[derive(Debug, Clone)]
pub struct NormalizedAudio {
    /// The bytes.
    pub data: Vec<u8>,
    /// The MIME type that the channel expects.
    pub mime_type: String,
    /// The file name to show.
    pub filename: String,
    /// The duration in seconds; zero where it is not known.
    pub duration_seconds: u32,
    /// Whether it goes to the channel's endpoint for voice notes.
    pub is_voice_note: bool,
    /// The profile that was applied.
    pub profile: ChannelProfile,
    /// Whether `ffmpeg` made the bytes; otherwise they are the source's.
    pub transcoded: bool,
    /// The envelope of a WhatsApp voice note; `None` where there is none to show.
    pub waveform: Option<Vec<u8>>,
}

/// Whether a MIME type describes a voice note.
pub open spec fn is_voice_note_mime(mime: Seq<char>) -> bool {
    text::occurs_in(mime, "opus"@) || text::occurs_in(mime, "ogg"@)
}

/// Whether a MIME type describes a voice note.
pub fn mime_is_voice_note(mime: &str) -> (r: bool)
    ensures
        r == is_voice_note_mime(mime@),
{
    text::contains(mime, "opus") || text::contains(mime, "ogg")
}

// ---------------------------------------------------------------------------
// Recognising audio
// ---------------------------------------------------------------------------

/// The extensions that are taken for audio without a probe.
pub open spec fn audio_extensions_spec() -> Seq<&'static str> {
    seq!["mp3", "ogg", "oga", "opus", "wav", "m4a", "aac", "flac"]
}

/// The extensions that are taken for audio without a probe.
pub fn audio_extensions() -> (r: Vec<&'static str>)
    ensures
        r@ == audio_extensions_spec(),
{
    vec!["mp3", "ogg", "oga", "opus", "wav", "m4a", "aac", "flac"]
}

/// Whether an extension, in any case, is taken for audio.
pub open spec fn is_audio_extension(ext: Seq<char>) -> bool {
    exists|i: int|
        0 <= i < audio_extensions_spec().len() && (#[trigger] audio_extensions_spec()[i])@
            == text::ascii_lowered(ext)
}

/// Whether an extension, in any case, is taken for audio without a probe.
pub fn has_audio_extension(ext: &str) -> (r: bool)
    ensures
        r == is_audio_extension(ext@),
{
    let lower = text::to_ascii_lowercase(ext);
    let known = audio_extensions();
    for i in 0..known.len()
        invariant
            known@ == audio_extensions_spec(),
            lower@ == text::ascii_lowered(ext@),
            forall|k: int| 0 <= k < i ==> (#[trigger] audio_extensions_spec()[k])@ != lower@,
    {
        if text::same_text(known[i], lower.as_str()) {
            assert(audio_extensions_spec()[i as int]@ == lower@);
            return true;
        }
    }
    false
}

/// Whether a file looks like audio: by its extension, or else because a probe found audio in it.
/// `probed` is what the probe found, where there was one.
pub fn looks_like_audio(ext: &str, probed: Option<bool>) -> (r: bool)
    ensures
        r == (is_audio_extension(ext@) || probed == Some(true)),
{
    if has_audio_extension(ext) {
        return true;
    }
    match probed {
        Some(found) => found,
        None => false,
    }
}

/// What is said of a source that is too large.
pub open spec fn oversize_report(path: Seq<char>, len: u64) -> Seq<char> {
    "audio normalize: source '"@ + path + "' is "@ + text::decimal(len as nat)
        + " bytes, exceeds cap of "@ + text::decimal(MAX_SOURCE_BYTES as nat) + " bytes"@
}

/// Refuses a source of more than [`MAX_SOURCE_BYTES`] bytes.
pub fn check_source_size(path: &str, len: u64) -> (r: Result<(), String>)
    ensures
        match r {
            Ok(_) => len <= MAX_SOURCE_BYTES,
            Err(e) => len > MAX_SOURCE_BYTES && e@ == oversize_report(path@, len),
        },
{
    if len > MAX_SOURCE_BYTES {
        let mut e = text::concat3("audio normalize: source '", path, "' is ");
        e.append(text::to_decimal(len).as_str());
        e.append(" bytes, exceeds cap of ");
        e.append(text::to_decimal(MAX_SOURCE_BYTES).as_str());
        e.append(" bytes");
        return Err(e);
    }
    Ok(())
}

// ---------------------------------------------------------------------------
// Probes
// ---------------------------------------------------------------------------

/// What is known of an audio source.
#[derive(Debug)]
pub struct AudioProbe {
    pub container_name: String,
    pub codec_name: String,
    pub sample_rate: u32,
    pub channels: u32,
    /// Zero where it is not known.
    pub duration_seconds: u32,
}

/// What a probe says.
pub struct Source {
    pub container_name: Seq<char>,
    pub codec_name: Seq<char>,
    pub sample_rate: u32,
    pub channels: u32,
    pub duration_seconds: u32,
}

impl View for AudioProbe {
    type V = Source;

    open spec fn view(&self) -> Source {
        Source {
            container_name: self.container_name@,
            codec_name: self.codec_name@,
            sample_rate: self.sample_rate,
            channels: self.channels,
            duration_seconds: self.duration_seconds,
        }
    }
}

impl Clone for AudioProbe {
    fn clone(&self) -> (r: AudioProbe)
        ensures
            r == *self,
    {
        AudioProbe {
            container_name: self.container_name.clone(),
            codec_name: self.codec_name.clone(),
            sample_rate: self.sample_rate,
            channels: self.channels,
            duration_seconds: self.duration_seconds,
        }
    }
}

impl Source {
    /// Whether this is Opus in an Ogg container, with one channel; the sample rate does not
    /// matter.
    pub open spec fn opus_mono(self) -> bool {
        &&& text::ascii_lowered(self.codec_name) == "opus"@
        &&& text::ascii_lowered(self.container_name) == "ogg"@
        &&& self.channels == 1
    }

    /// Whether a music player takes this as it is.
    pub open spec fn plays_as_music(self) -> bool {
        let codec = text::ascii_lowered(self.codec_name);
        ||| codec == "mp3"@
        ||| codec == "aac"@
        ||| codec == "m4a"@
        ||| codec == "alac"@
        ||| codec == "flac"@
        ||| codec == "wav"@
    }

    /// Whether this is mono, of known length, and at most a minute long.
    pub open spec fn short_and_mono(self) -> bool {
        self.channels == 1 && 0 < self.duration_seconds <= 60
    }

    /// The MIME type that goes with the codec.
    pub open spec fn mime(self) -> Seq<char> {
        let codec = text::ascii_lowered(self.codec_name);
        if codec == "opus"@ {
            VOICE_NOTE_MIME@
        } else if codec == "vorbis"@ {
            "audio/ogg"@
        } else if codec == "mp3"@ {
            "audio/mpeg"@
        } else if codec == "aac"@ || codec == "m4a"@ || codec == "alac"@ {
            "audio/mp4"@
        } else if codec == "flac"@ {
            "audio/flac"@
        } else if codec == "wav"@ || codec == "pcm_s16le"@ || codec == "pcm_s24le"@ {
            "audio/wav"@
        } else {
            "application/octet-stream"@
        }
    }
}

impl AudioProbe {
    /// Whether the source is a voice note already: Opus in an Ogg container, with one channel.
    pub fn is_opus_mono_voice_compatible(&self) -> (r: bool)
        ensures
            r == self@.opus_mono(),
    {
        is_lowered(self.codec_name.as_str(), "opus") && is_lowered(
            self.container_name.as_str(),
            "ogg",
        ) && self.channels == 1
    }

    /// Whether a music player takes the source as it is.
    pub fn is_music_compatible(&self) -> (r: bool)
        ensures
            r == self@.plays_as_music(),
    {
        let codec = self.codec_name.as_str();
        is_lowered(codec, "mp3") || is_lowered(codec, "aac") || is_lowered(codec, "m4a")
            || is_lowered(codec, "alac") || is_lowered(codec, "flac") || is_lowered(codec, "wav")
    }

    /// Whether the source is mono and short enough for a voice note.
    pub fn looks_like_voice_note(&self) -> (r: bool)
        ensures
            r == self@.short_and_mono(),
    {
        self.channels == 1 && self.duration_seconds > 0 && self.duration_seconds <= 60
    }

    /// The MIME type that goes with the codec.
    pub fn guessed_mime(&self) -> (r: &'static str)
        ensures
            r@ == self@.mime(),
    {
        let codec = self.codec_name.as_str();
        if is_lowered(codec, "opus") {
            VOICE_NOTE_MIME
        } else if is_lowered(codec, "vorbis") {
            "audio/ogg"
        } else if is_lowered(codec, "mp3") {
            "audio/mpeg"
        } else if is_lowered(codec, "aac") || is_lowered(codec, "m4a") || is_lowered(
            codec,
            "alac",
        ) {
            "audio/mp4"
        } else if is_lowered(codec, "flac") {
            "audio/flac"
        } else if is_lowered(codec, "wav") || is_lowered(codec, "pcm_s16le") || is_lowered(
            codec,
            "pcm_s24le",
        ) {
            "audio/wav"
        } else {
            "application/octet-stream"
        }
    }
}

/// Whether `s` with ASCII letters lowered is `lower`.
fn is_lowered(s: &str, lower: &str) -> (r: bool)
    ensures
        r == (text::ascii_lowered(s@) == lower@),
{
    text::same_text(text::to_ascii_lowercase(s).as_str(), lower)
}

/// A source of which nothing is known but container, codec, rate and channels.
pub open spec fn guessed(
    container_name: Seq<char>,
    codec_name: Seq<char>,
    channels: u32,
    sample_rate: u32,
) -> Source {
    Source { container_name, codec_name, sample_rate, channels, duration_seconds: 0 }
}

/// What an extension suggests.
pub open spec fn source_for_extension(ext: Seq<char>) -> Source {
    let e = text::ascii_lowered(ext);
    if e == "ogg"@ || e == "oga"@ || e == "opus"@ {
        guessed("ogg"@, "opus"@, 1, 48_000)
    } else if e == "mp3"@ {
        guessed("mp3"@, "mp3"@, 2, 44_100)
    } else if e == "m4a"@ || e == "aac"@ {
        guessed("mp4"@, "aac"@, 2, 44_100)
    } else if e == "wav"@ {
        guessed("wav"@, "pcm_s16le"@, 1, 16_000)
    } else if e == "flac"@ {
        guessed("flac"@, "flac"@, 2, 44_100)
    } else {
        guessed(""@, ""@, 0, 0)
    }
}

fn guess(container: &str, codec: &str, channels: u32, sample_rate: u32) -> (r: AudioProbe)
    ensures
        r@ == guessed(container@, codec@, channels, sample_rate),
{
    AudioProbe {
        container_name: container.to_owned(),
        codec_name: codec.to_owned(),
        sample_rate,
        channels,
        duration_seconds: 0,
    }
}

/// What an extension suggests.
pub fn probe_for_extension(ext: &str) -> (r: AudioProbe)
    ensures
        r@ == source_for_extension(ext@),
{
    if is_lowered(ext, "ogg") || is_lowered(ext, "oga") || is_lowered(ext, "opus") {
        guess("ogg", "opus", 1, 48_000)
    } else if is_lowered(ext, "mp3") {
        guess("mp3", "mp3", 2, 44_100)
    } else if is_lowered(ext, "m4a") || is_lowered(ext, "aac") {
        guess("mp4", "aac", 2, 44_100)
    } else if is_lowered(ext, "wav") {
        guess("wav", "pcm_s16le", 1, 16_000)
    } else if is_lowered(ext, "flac") {
        guess("flac", "flac", 2, 44_100)
    } else {
        guess("", "", 0, 0)
    }
}

/// What the name of a file suggests.
pub fn probe_for_name(name: Option<&str>) -> (r: AudioProbe)
    ensures
        r@ == source_for_extension(file_names::extension_or_empty(text::opt_text(name))),
{
    match name {
        Some(n) => probe_for_extension(file_names::extension(n).as_str()),
        None => probe_for_extension(String::new().as_str()),
    }
}

/// What the extension of a path suggests. Where the platform has a say in what the path's last
/// name is, that name is what counts.
pub fn probe_by_extension(path: &str) -> (r: AudioProbe)
    ensures
        exists|name: Option<Seq<char>>| #[trigger]
            file_names::is_name_of(path@, name) && r@ == source_for_extension(
                file_names::extension_or_empty(name),
            ),
        file_names::is_portable(path@) ==> r@ == source_for_extension(
            file_names::extension_or_empty(file_names::name_in(path@)),
        ),
{
    let name = file_names::file_name(path);
    let r = probe_for_name(text::as_text(&name));
    assert(file_names::is_name_of(path@, text::opt_string(name)));
    r
}

/// What an `ffprobe` report says of a source.
#[derive(Debug)]
pub struct ProbeReport {
    pub container_name: String,
    pub codec_name: String,
    pub sample_rate: u32,
    pub channels: u32,
    /// The duration in seconds, as it is written.
    pub duration: Option<String>,
}

/// What is read in a report.
#[verifier::ext_equal]
pub struct Reading {
    pub container_name: Seq<char>,
    pub codec_name: Seq<char>,
    pub sample_rate: u32,
    pub channels: u32,
    pub duration: Option<Seq<char>>,
}

impl View for ProbeReport {
    type V = Reading;

    open spec fn view(&self) -> Reading {
        Reading {
            container_name: self.container_name@,
            codec_name: self.codec_name@,
            sample_rate: self.sample_rate,
            channels: self.channels,
            duration: text::opt_string(self.duration),
        }
    }
}

impl ProbeReport {
    /// The probe, once the duration is read as a number of seconds.
    pub fn with_duration(self, duration_seconds: u32) -> (r: AudioProbe)
        ensures
            r@ == (Source {
                container_name: self@.container_name,
                codec_name: self@.codec_name,
                sample_rate: self@.sample_rate,
                channels: self@.channels,
                duration_seconds,
            }),
    {
        AudioProbe {
            container_name: self.container_name,
            codec_name: self.codec_name,
            sample_rate: self.sample_rate,
            channels: self.channels,
            duration_seconds,
        }
    }
}

/// Why `ffprobe` tells nothing of a source.
#[derive(Debug)]
pub enum ProbeError {
    /// It could not be started.
    Spawn(String),
    /// It ended with a failure.
    Exit { status: String, stderr: String },
    /// Its output is no JSON document.
    NotJson(String),
    /// It found no audio in the source.
    NoAudioStream,
}

impl ProbeError {
    /// The error in words.
    pub open spec fn text(self) -> Seq<char> {
        match self {
            ProbeError::Spawn(e) => "spawn: "@ + e@,
            ProbeError::Exit { status, stderr } => "ffprobe exit "@ + status@ + ": "@
                + text::trimmed(stderr@),
            ProbeError::NotJson(e) => "ffprobe json parse: "@ + e@,
            ProbeError::NoAudioStream => "source has no audio stream"@,
        }
    }

    /// The error in words.
    pub fn message(&self) -> (r: String)
        ensures
            r@ == self.text(),
    {
        match self {
            ProbeError::Spawn(e) => text::concat2("spawn: ", e.as_str()),
            ProbeError::Exit { status, stderr } => {
                let mut out = text::concat3("ffprobe exit ", status.as_str(), ": ");
                out.append(text::trim(stderr.as_str()).as_str());
                out
            },
            ProbeError::NotJson(e) => text::concat2("ffprobe json parse: ", e.as_str()),
            ProbeError::NoAudioStream => "source has no audio stream".to_owned(),
        }
    }
}

/// The streams of a report.
pub open spec fn streams_in(report: JsonTree) -> Option<Seq<JsonTree>> {
    match report.field("streams"@) {
        Some(v) => v.as_array(),
        None => None,
    }
}

/// Whether a stream is audio.
pub open spec fn is_audio_stream(stream: JsonTree) -> bool {
    stream.text_field("codec_type"@) == Some("audio"@)
}

/// Whether a report shows an audio stream.
pub open spec fn has_audio_stream(report: JsonTree) -> bool {
    match streams_in(report) {
        Some(streams) => exists|i: int|
            0 <= i < streams.len() && is_audio_stream(#[trigger] streams[i]),
        None => false,
    }
}

/// The text of a member of an optional document.
pub open spec fn text_in(v: Option<JsonTree>, name: Seq<char>) -> Option<Seq<char>> {
    match v {
        Some(j) => j.text_field(name),
        None => None,
    }
}

/// What a report with an audio stream says: codec, rate and channels of its first stream,
/// container and duration of the whole. Where several containers come into question, the first
/// is taken. What is missing or unreadable is empty or zero.
pub open spec fn reading_of(report: JsonTree) -> Reading {
    let stream = streams_in(report)->0[0];
    let format = report.field("format"@);
    Reading {
        container_name: match text_in(format, "format_name"@) {
            Some(names) => text::split_on(names, ',')[0],
            None => Seq::empty(),
        },
        codec_name: match stream.text_field("codec_name"@) {
            Some(name) => name,
            None => Seq::empty(),
        },
        sample_rate: match stream.text_field("sample_rate"@) {
            Some(rate) => match text::unsigned_within(rate, u32::MAX as nat) {
                Some(n) => n as u32,
                None => 0,
            },
            None => 0,
        },
        channels: match stream.field("channels"@) {
            Some(count) => match count.as_u64() {
                Some(n) => (n % 0x1_0000_0000) as u32,
                None => 0,
            },
            None => 0,
        },
        duration: text_in(format, "duration"@),
    }
}

/// Whether a stream is audio.
fn stream_is_audio(stream: &Json) -> (r: bool)
    ensures
        r == is_audio_stream(stream@),
{
    match stream.text_at("codec_type") {
        Some(t) => text::same_text(t, "audio"),
        None => false,
    }
}

/// What the first stream and the format of a report say.
fn reading(report: &Json, stream: &Json) -> (r: ProbeReport)
    requires
        streams_in(report@) matches Some(streams) && streams.len() > 0 && streams[0] == stream@,
    ensures
        r@ == reading_of(report@),
{
    let codec_name = match stream.text_at("codec_name") {
        Some(name) => name.to_owned(),
        None => String::new(),
    };
    let sample_rate: u32 = match stream.text_at("sample_rate") {
        Some(rate) => match text::parse_unsigned(rate, u32::MAX as u64) {
            Some(n) => {
                assert(n <= u32::MAX);
                n as u32
            },
            None => 0,
        },
        None => 0,
    };
    let channels: u32 = match stream.get("channels") {
        Some(count) => match count.as_u64() {
            Some(n) => (n % 0x1_0000_0000) as u32,
            None => 0,
        },
        None => 0,
    };
    let mut container_name = String::new();
    let mut duration: Option<String> = None;
    if let Some(format) = report.get("format") {
        if let Some(names) = format.text_at("format_name") {
            let candidates = text::split(names, ',');
            proof {
                text::lemma_split_joined(names@, ',');
                assert(text::texts(candidates@)[0] == candidates@[0]@);
            }
            container_name = candidates[0].clone();
        }
        if let Some(d) = format.text_at("duration") {
            duration = Some(d.to_owned());
        }
    }
    ProbeReport { container_name, codec_name, sample_rate, channels, duration }
}

/// Reads a report of `ffprobe` that has been parsed. A source without an audio stream is refused.
pub fn read_report(report: &Json) -> (r: Result<ProbeReport, ProbeError>)
    ensures
        match r {
            Ok(x) => has_audio_stream(report@) && x@ == reading_of(report@),
            Err(e) => !has_audio_stream(report@) && e is NoAudioStream,
        },
{
    if let Some(v) = report.get("streams") {
        if let Some(streams) = v.as_array() {
            let ghost all = streams_in(report@)->0;
            for i in 0..streams.len()
                invariant
                    streams_in(report@) == Some(all),
                    all.len() == streams@.len(),
                    forall|k: int| 0 <= k < all.len() ==> #[trigger] all[k] == streams@[k]@,
                    forall|k: int| 0 <= k < i ==> !is_audio_stream(#[trigger] all[k]),
            {
                if stream_is_audio(&streams[i]) {
                    assert(is_audio_stream(all[i as int]));
                    assert(all[0] == streams@[0]@);
                    return Ok(reading(report, &streams[0]));
                }
            }
        }
    }
    Err(ProbeError::NoAudioStream)
}

/// Reads what a run of `ffprobe` left behind: how it ended, and what it wrote.
pub fn read_probe_output(success: bool, status: &str, stderr: &str, stdout: &[u8]) -> (r: Result<
    ProbeReport,
    ProbeError,
>)
    ensures
        !success ==> {
            &&& r matches Err(ProbeError::Exit { status: s, stderr: e })
            &&& s@ == status@
            &&& e@ == stderr@
        },
        success ==> match json::json_in_bytes(stdout@) {
            Ok(report) => if has_audio_stream(report) {
                r matches Ok(x) && x@ == reading_of(report)
            } else {
                r matches Err(ProbeError::NoAudioStream)
            },
            Err(why) => r matches Err(ProbeError::NotJson(e)) && e@ == why,
        },
{
    if !success {
        return Err(ProbeError::Exit { status: status.to_owned(), stderr: stderr.to_owned() });
    }
    match json::parse_bytes(stdout) {
        Ok(report) => read_report(&report),
        Err(e) => Err(ProbeError::NotJson(e)),
    }
}

/// Decides on the outcome of a probe. Where `ffprobe` could not be started the extension has to
/// do; a source that it cannot identify as audio is refused.
pub fn probe_audio(outcome: Result<AudioProbe, ProbeError>, ext: &str) -> (r: Result<
    AudioProbe,
    String,
>)
    ensures
        match r {
            Ok(p) => probed_source(ext@, outcome) == Ok::<Source, Seq<char>>(p@),
            Err(e) => probed_source(ext@, outcome) == Err::<Source, Seq<char>>(e@),
        },
{
    match outcome {
        Ok(p) => Ok(p),
        Err(e) => match e {
            ProbeError::Spawn(_) => Ok(probe_for_extension(ext)),
            _ => Err(e.message()),
        },
    }
}

// ---------------------------------------------------------------------------
// File names
// ---------------------------------------------------------------------------

/// A file's name with `ext` in place of its extension; `audio` where it has no name.
pub open spec fn name_with(name: Option<Seq<char>>, ext: Seq<char>) -> Seq<char> {
    let stem = match name {
        Some(n) => file_names::stem_of(n),
        None => "audio"@,
    };
    stem + seq!['.'] + ext
}

/// A file's name with `ext` in place of its extension; `audio` where it has no name.
pub fn name_with_extension(name: Option<&str>, ext: &str) -> (r: String)
    ensures
        r@ == name_with(text::opt_text(name), ext@),
{
    let kept = match name {
        Some(n) => file_names::stem(n),
        None => "audio".to_owned(),
    };
    proof {
        reveal_strlit(".");
        assert("."@ == seq!['.']);
    }
    text::concat3(kept.as_str(), ".", ext)
}

/// The last name of a path with `ext` in place of its extension; `audio` where the path has no
/// name. Where the platform has a say in what the last name is, that name is what counts.
pub fn force_extension(path: &str, ext: &str) -> (r: String)
    ensures
        exists|name: Option<Seq<char>>| #[trigger]
            file_names::is_name_of(path@, name) && r@ == name_with(name, ext@),
        file_names::is_portable(path@) ==> r@ == name_with(file_names::name_in(path@), ext@),
{
    let name = file_names::file_name(path);
    let r = name_with_extension(text::as_text(&name), ext);
    assert(file_names::is_name_of(path@, text::opt_string(name)));
    r
}

// ---------------------------------------------------------------------------
// What is done with a source
// ---------------------------------------------------------------------------

/// How the bytes are made.
#[derive(Debug, Clone, Copy, PartialEq, Eq, Structural)]
pub enum Transcode {
    /// The source's own bytes.
    Keep,
    /// Opus in an Ogg container, with one channel.
    Opus { sample_rate: u32, bitrate_bps: u32 },
    /// MP3.
    Mp3,
}

/// How a source is made ready for a channel.
#[derive(Debug)]
pub struct NormalizePlan {
    pub transcode: Transcode,
    pub mime_type: &'static str,
    pub filename: String,
    pub duration_seconds: u32,
    pub is_voice_note: bool,
    pub profile: ChannelProfile,
    /// Whether the channel shows a waveform.
    pub waveform: bool,
}

/// What a plan says.
pub struct Plan {
    pub transcode: Transcode,
    pub mime_type: Seq<char>,
    pub filename: Seq<char>,
    pub duration_seconds: u32,
    pub is_voice_note: bool,
    pub profile: ChannelProfile,
    pub waveform: bool,
}

impl View for NormalizePlan {
    type V = Plan;

    open spec fn view(&self) -> Plan {
        Plan {
            transcode: self.transcode,
            mime_type: self.mime_type@,
            filename: self.filename@,
            duration_seconds: self.duration_seconds,
            is_voice_note: self.is_voice_note,
            profile: self.profile,
            waveform: self.waveform,
        }
    }
}

/// Whether a source is to become a voice note.
pub open spec fn wants_voice_note(
    profile: ChannelProfile,
    delivery: DeliveryMode,
    source: Source,
) -> bool {
    match delivery {
        DeliveryMode::VoiceNote => true,
        DeliveryMode::MusicFile => false,
        DeliveryMode::Auto => match profile {
            ChannelProfile::WhatsApp => true,
            ChannelProfile::Telegram => source.short_and_mono(),
            ChannelProfile::Signal => source.short_and_mono(),
            _ => false,
        },
    }
}

/// The plan for a voice note: a source that is one already is kept.
pub open spec fn voice_note(
    profile: ChannelProfile,
    source: Source,
    name: Option<Seq<char>>,
    sample_rate: u32,
    bitrate_bps: u32,
) -> Plan {
    Plan {
        transcode: if source.opus_mono() {
            Transcode::Keep
        } else {
            Transcode::Opus { sample_rate, bitrate_bps }
        },
        mime_type: VOICE_NOTE_MIME@,
        filename: name_with(name, "ogg"@),
        duration_seconds: source.duration_seconds,
        is_voice_note: true,
        profile,
        waveform: profile == ChannelProfile::WhatsApp,
    }
}

/// The plan for a file that passes through.
pub open spec fn passed_through(
    profile: ChannelProfile,
    source: Source,
    filename: Seq<char>,
    is_voice_note: bool,
) -> Plan {
    Plan {
        transcode: Transcode::Keep,
        mime_type: source.mime(),
        filename,
        duration_seconds: source.duration_seconds,
        is_voice_note,
        profile,
        waveform: false,
    }
}

/// The plan for a music file: MP3, where the source is no music file already.
pub open spec fn music_file(
    profile: ChannelProfile,
    source: Source,
    filename: Seq<char>,
    name: Option<Seq<char>>,
) -> Plan {
    if source.plays_as_music() {
        passed_through(profile, source, filename, false)
    } else {
        Plan {
            transcode: Transcode::Mp3,
            mime_type: "audio/mpeg"@,
            filename: name_with(name, "mp3"@),
            duration_seconds: source.duration_seconds,
            is_voice_note: false,
            profile,
            waveform: false,
        }
    }
}

/// The sample rate of a voice note that goes to Telegram or Signal.
pub open spec fn voice_rate(delivery: DeliveryMode) -> u32 {
    if delivery == DeliveryMode::VoiceNote {
        16_000
    } else {
        48_000
    }
}

/// How a source is made ready for a channel; `name` is the last name of `filename`.
pub open spec fn planned(
    profile: ChannelProfile,
    delivery: DeliveryMode,
    source: Source,
    filename: Seq<char>,
    name: Option<Seq<char>>,
) -> Plan {
    let voice = wants_voice_note(profile, delivery, source);
    match profile {
        ChannelProfile::WhatsApp => voice_note(profile, source, name, 16_000, 32_000),
        ChannelProfile::Telegram => if voice {
            voice_note(profile, source, name, voice_rate(delivery), 64_000)
        } else {
            music_file(profile, source, filename, name)
        },
        ChannelProfile::Signal => if voice {
            voice_note(profile, source, name, voice_rate(delivery), 64_000)
        } else {
            passed_through(profile, source, filename, false)
        },
        _ => passed_through(profile, source, filename, voice),
    }
}

/// The file name to go by: the one that is asked for, else the source's own, else the caption,
/// else `audio`.
pub open spec fn chosen_filename(opts: NormalizeOptions, own: Option<Seq<char>>) -> Seq<char> {
    match (text::opt_string(opts.filename), own, text::opt_string(opts.caption)) {
        (Some(name), _, _) => name,
        (None, Some(name), _) => name,
        (None, None, Some(name)) => name,
        (None, None, None) => "audio"@,
    }
}

/// The file name to go by.
pub fn choose_filename(opts: &NormalizeOptions, own: Option<&str>) -> (r: String)
    ensures
        r@ == chosen_filename(*opts, text::opt_text(own)),
{
    if let Some(name) = &opts.filename {
        return name.clone();
    }
    if let Some(name) = own {
        return name.to_owned();
    }
    match &opts.caption {
        Some(name) => name.clone(),
        None => "audio".to_owned(),
    }
}

/// The plan for a voice note.
fn normalize_opus_voice_note(
    profile: ChannelProfile,
    probe: &AudioProbe,
    name: Option<&str>,
    sample_rate: u32,
    bitrate_bps: u32,
) -> (r: NormalizePlan)
    ensures
        r@ == voice_note(profile, probe@, text::opt_text(name), sample_rate, bitrate_bps),
{
    NormalizePlan {
        transcode: if probe.is_opus_mono_voice_compatible() {
            Transcode::Keep
        } else {
            Transcode::Opus { sample_rate, bitrate_bps }
        },
        mime_type: VOICE_NOTE_MIME,
        filename: name_with_extension(name, "ogg"),
        duration_seconds: probe.duration_seconds,
        is_voice_note: true,
        profile,
        waveform: profile == ChannelProfile::WhatsApp,
    }
}

/// The plan for a file that passes through.
fn pass_through(
    profile: ChannelProfile,
    probe: &AudioProbe,
    filename: &str,
    is_voice_note: bool,
) -> (r: NormalizePlan)
    ensures
        r@ == passed_through(profile, probe@, filename@, is_voice_note),
{
    NormalizePlan {
        transcode: Transcode::Keep,
        mime_type: probe.guessed_mime(),
        filename: filename.to_owned(),
        duration_seconds: probe.duration_seconds,
        is_voice_note,
        profile,
        waveform: false,
    }
}

/// The plan for a music file.
fn transcode_to_mp3(
    profile: ChannelProfile,
    probe: &AudioProbe,
    filename: &str,
    name: Option<&str>,
) -> (r: NormalizePlan)
    ensures
        r@ == music_file(profile, probe@, filename@, text::opt_text(name)),
{
    if probe.is_music_compatible() {
        return pass_through(profile, probe, filename, false);
    }
    NormalizePlan {
        transcode: Transcode::Mp3,
        mime_type: "audio/mpeg",
        filename: name_with_extension(name, "mp3"),
        duration_seconds: probe.duration_seconds,
        is_voice_note: false,
        profile,
        waveform: false,
    }
}

/// How a source is made ready for a channel, given what is known of it, the file name to go by and
/// the last name in that.
pub fn plan_for_name(
    profile: ChannelProfile,
    delivery: DeliveryMode,
    probe: &AudioProbe,
    filename: &str,
    name: Option<&str>,
) -> (r: NormalizePlan)
    ensures
        r@ == planned(profile, delivery, probe@, filename@, text::opt_text(name)),
{
    let voice = match delivery {
        DeliveryMode::VoiceNote => true,
        DeliveryMode::MusicFile => false,
        DeliveryMode::Auto => profile == ChannelProfile::WhatsApp || ((profile
            == ChannelProfile::Telegram || profile == ChannelProfile::Signal)
            && probe.looks_like_voice_note()),
    };
    let rate: u32 = match delivery {
        DeliveryMode::VoiceNote => 16_000,
        _ => 48_000,
    };
    match profile {
        ChannelProfile::WhatsApp => normalize_opus_voice_note(profile, probe, name, 16_000, 32_000),
        ChannelProfile::Telegram => if voice {
            normalize_opus_voice_note(profile, probe, name, rate, 64_000)
        } else {
            transcode_to_mp3(profile, probe, filename, name)
        },
        ChannelProfile::Signal => if voice {
            normalize_opus_voice_note(profile, probe, name, rate, 64_000)
        } else {
            pass_through(profile, probe, filename, false)
        },
        _ => pass_through(profile, probe, filename, voice),
    }
}

/// How a source is made ready for a channel, given what is known of it and the name of its file.
/// Where the platform has a say in what the last name of the file name is, that name is what
/// counts.
pub fn plan_normalization(
    channel: &str,
    opts: &NormalizeOptions,
    probe: &AudioProbe,
    own_name: Option<&str>,
) -> (r: NormalizePlan)
    ensures
        ({
            let filename = chosen_filename(*opts, text::opt_text(own_name));
            &&& exists|name: Option<Seq<char>>| #[trigger]
                file_names::is_name_of(filename, name) && r@ == planned(
                    profile_of(channel@),
                    opts.delivery,
                    probe@,
                    filename,
                    name,
                )
            &&& file_names::is_portable(filename) ==> r@ == planned(
                profile_of(channel@),
                opts.delivery,
                probe@,
                filename,
                file_names::name_in(filename),
            )
        }),
{
    let profile = ChannelProfile::from_channel(channel);
    let filename = choose_filename(opts, own_name);
    let name = file_names::file_name(filename.as_str());
    let r = plan_for_name(
        profile,
        opts.delivery,
        probe,
        filename.as_str(),
        text::as_text(&name),
    );
    assert(file_names::is_name_of(filename@, text::opt_string(name)));
    r
}

/// What a finished file says.
#[verifier::ext_equal]
pub struct Audio {
    pub data: Seq<u8>,
    pub mime_type: Seq<char>,
    pub filename: Seq<char>,
    pub duration_seconds: u32,
    pub is_voice_note: bool,
    pub profile: ChannelProfile,
    pub transcoded: bool,
    pub waveform: Option<Seq<u8>>,
}

/// The view of optional bytes.
pub open spec fn opt_bytes(bytes: Option<Vec<u8>>) -> Option<Seq<u8>> {
    match bytes {
        Some(b) => Some(b@),
        None => None,
    }
}

impl View for NormalizedAudio {
    type V = Audio;

    open spec fn view(&self) -> Audio {
        Audio {
            data: self.data@,
            mime_type: self.mime_type@,
            filename: self.filename@,
            duration_seconds: self.duration_seconds,
            is_voice_note: self.is_voice_note,
            profile: self.profile,
            transcoded: self.transcoded,
            waveform: opt_bytes(self.waveform),
        }
    }
}

/// The finished file, from the bytes that were made and the waveform that was measured.
pub open spec fn finished(plan: Plan, data: Seq<u8>, waveform: Option<Seq<u8>>) -> Audio {
    Audio {
        data,
        mime_type: plan.mime_type,
        filename: plan.filename,
        duration_seconds: plan.duration_seconds,
        is_voice_note: plan.is_voice_note,
        profile: plan.profile,
        transcoded: plan.transcode != Transcode::Keep,
        waveform: if plan.waveform {
            waveform
        } else {
            None
        },
    }
}

impl NormalizePlan {
    /// The finished file, from the bytes that were made and the waveform that was measured.
    pub fn finish(self, data: Vec<u8>, waveform: Option<Vec<u8>>) -> (r: NormalizedAudio)
        ensures
            r@ == finished(self@, data@, opt_bytes(waveform)),
    {
        NormalizedAudio {
            data,
            mime_type: self.mime_type.to_owned(),
            filename: self.filename,
            duration_seconds: self.duration_seconds,
            is_voice_note: self.is_voice_note,
            profile: self.profile,
            transcoded: self.transcode != Transcode::Keep,
            waveform: if self.waveform {
                waveform
            } else {
                None
            },
        }
    }
}

// ---------------------------------------------------------------------------
// The steps of a normalisation
// ---------------------------------------------------------------------------

/// What is asked for: a source, the channel that it goes to, and how.
#[derive(Debug)]
pub struct NormalizeJob {
    path: String,
    ext: String,
    profile: ChannelProfile,
    delivery: DeliveryMode,
    filename: String,
    name: Option<String>,
}

/// What a job says.
pub struct Job {
    /// The source, as it is shown in errors.
    pub path: Seq<char>,
    /// The source's extension.
    pub ext: Seq<char>,
    pub profile: ChannelProfile,
    pub delivery: DeliveryMode,
    /// The file name to go by, and the last name in it.
    pub filename: Seq<char>,
    pub name: Option<Seq<char>>,
}

impl View for NormalizeJob {
    type V = Job;

    closed spec fn view(&self) -> Job {
        Job {
            path: self.path@,
            ext: self.ext@,
            profile: self.profile,
            delivery: self.delivery,
            filename: self.filename@,
            name: text::opt_string(self.name),
        }
    }
}

impl NormalizeJob {
    /// The job of making a source ready for `channel`: `path` is how the source is shown, `ext` its
    /// extension, and `own_name` the name of its file.
    pub fn new(
        channel: &str,
        opts: &NormalizeOptions,
        path: &str,
        ext: &str,
        own_name: Option<&str>,
    ) -> (r: NormalizeJob)
        ensures
            r@.path == path@,
            r@.ext == ext@,
            r@.profile == profile_of(channel@),
            r@.delivery == opts.delivery,
            r@.filename == chosen_filename(*opts, text::opt_text(own_name)),
            file_names::is_name_of(r@.filename, r@.name),
    {
        let filename = choose_filename(opts, own_name);
        let name = file_names::file_name(filename.as_str());
        NormalizeJob {
            path: path.to_owned(),
            ext: ext.to_owned(),
            profile: ChannelProfile::from_channel(channel),
            delivery: opts.delivery,
            filename,
            name,
        }
    }
}

/// How far a normalisation has come.
#[derive(Debug)]
pub enum Normalization {
    /// Nothing is known of the source.
    Unmeasured,
    /// The source is small enough.
    Measured,
    /// It is decided what becomes of the source.
    Planned(NormalizePlan),
    /// The bytes are made.
    Made(NormalizePlan, Vec<u8>),
    /// The file is ready.
    Finished(NormalizedAudio),
}

/// How far a normalisation has come.
#[verifier::ext_equal]
pub enum Stage {
    Unmeasured,
    Measured,
    Planned(Plan),
    Made(Plan, Seq<u8>),
    Finished(Audio),
}

impl View for Normalization {
    type V = Stage;

    open spec fn view(&self) -> Stage {
        match self {
            Normalization::Unmeasured => Stage::Unmeasured,
            Normalization::Measured => Stage::Measured,
            Normalization::Planned(plan) => Stage::Planned(plan@),
            Normalization::Made(plan, data) => Stage::Made(plan@, data@),
            Normalization::Finished(audio) => Stage::Finished(audio@),
        }
    }
}

/// What is to be done next.
#[derive(Debug, Clone, Copy, PartialEq, Eq, Structural)]
pub enum NormalizeAction {
    /// Find out the size of the source.
    Measure,
    /// Probe the source.
    Probe,
    /// Read the source.
    Read,
    /// Transcode the source.
    Transcode(Transcode),
    /// Measure the waveform of the bytes that were made.
    MeasureWaveform,
    /// Hand the finished file out.
    Deliver,
}

/// What came of an action.
#[derive(Debug)]
pub enum NormalizeEvent {
    /// The size of the source in bytes.
    Size(u64),
    /// What the probe found.
    Probed(Result<AudioProbe, ProbeError>),
    /// The bytes that were read or transcoded.
    Bytes(Vec<u8>),
    /// The waveform, where there is one.
    Waveform(Option<Vec<u8>>),
}

/// What is to be done at a stage.
pub open spec fn action_at(stage: Stage) -> NormalizeAction {
    match stage {
        Stage::Unmeasured => NormalizeAction::Measure,
        Stage::Measured => NormalizeAction::Probe,
        Stage::Planned(plan) => if plan.transcode == Transcode::Keep {
            NormalizeAction::Read
        } else {
            NormalizeAction::Transcode(plan.transcode)
        },
        Stage::Made(_, _) => NormalizeAction::MeasureWaveform,
        Stage::Finished(_) => NormalizeAction::Deliver,
    }
}

/// Whether an event is what comes of the action at a stage.
pub open spec fn answers(stage: Stage, event: NormalizeEvent) -> bool {
    match stage {
        Stage::Unmeasured => event is Size,
        Stage::Measured => event is Probed,
        Stage::Planned(_) => event is Bytes,
        Stage::Made(_, _) => event is Waveform,
        Stage::Finished(_) => false,
    }
}

/// What is known of a source after a probe: what the probe found, or what the extension suggests
/// where `ffprobe` could not be started. A source that it cannot identify as audio is refused.
pub open spec fn probed_source(
    ext: Seq<char>,
    outcome: Result<AudioProbe, ProbeError>,
) -> Result<Source, Seq<char>> {
    match outcome {
        Ok(probe) => Ok(probe@),
        Err(ProbeError::Spawn(_)) => Ok(source_for_extension(ext)),
        Err(e) => Err(e.text()),
    }
}

/// What becomes of a source.
pub open spec fn job_plan(job: Job, source: Source) -> Plan {
    planned(job.profile, job.delivery, source, job.filename, job.name)
}

/// The stage after an event that answers the action at `stage`, or why the source is refused.
pub open spec fn next_stage(job: Job, stage: Stage, event: NormalizeEvent) -> Result<
    Stage,
    Seq<char>,
> {
    match (stage, event) {
        (Stage::Unmeasured, NormalizeEvent::Size(len)) => if len <= MAX_SOURCE_BYTES {
            Ok(Stage::Measured)
        } else {
            Err(oversize_report(job.path, len))
        },
        (Stage::Measured, NormalizeEvent::Probed(outcome)) => match probed_source(
            job.ext,
            outcome,
        ) {
            Ok(source) => Ok(Stage::Planned(job_plan(job, source))),
            Err(e) => Err(e),
        },
        (Stage::Planned(plan), NormalizeEvent::Bytes(data)) => if plan.transcode
            != Transcode::Keep && data@.len() == 0 {
            Err("ffmpeg produced an empty output"@)
        } else if plan.waveform {
            Ok(Stage::Made(plan, data@))
        } else {
            Ok(Stage::Finished(finished(plan, data@, None)))
        },
        (Stage::Made(plan, data), NormalizeEvent::Waveform(waveform)) => Ok(
            Stage::Finished(finished(plan, data, opt_bytes(waveform))),
        ),
        _ => Err(Seq::empty()),
    }
}

impl Normalization {
    /// What is to be done next.
    pub fn action(&self) -> (r: NormalizeAction)
        ensures
            r == action_at(self@),
    {
        match self {
            Normalization::Unmeasured => NormalizeAction::Measure,
            Normalization::Measured => NormalizeAction::Probe,
            Normalization::Planned(plan) => match plan.transcode {
                Transcode::Keep => NormalizeAction::Read,
                t => NormalizeAction::Transcode(t),
            },
            Normalization::Made(_, _) => NormalizeAction::MeasureWaveform,
            Normalization::Finished(_) => NormalizeAction::Deliver,
        }
    }

    /// Takes what came of the action. An error refuses the source.
    pub fn step(self, job: &NormalizeJob, event: NormalizeEvent) -> (r: Result<
        Normalization,
        String,
    >)
        requires
            answers(self@, event),
        ensures
            match r {
                Ok(n) => next_stage(job@, self@, event) == Ok::<Stage, Seq<char>>(n@),
                Err(e) => next_stage(job@, self@, event) == Err::<Stage, Seq<char>>(e@),
            },
    {
        match (self, event) {
            (Normalization::Unmeasured, NormalizeEvent::Size(len)) => match check_source_size(
                job.path.as_str(),
                len,
            ) {
                Ok(_) => Ok(Normalization::Measured),
                Err(e) => Err(e),
            },
            (Normalization::Measured, NormalizeEvent::Probed(outcome)) => match probe_audio(
                outcome,
                job.ext.as_str(),
            ) {
                Ok(probe) => Ok(
                    Normalization::Planned(
                        plan_for_name(
                            job.profile,
                            job.delivery,
                            &probe,
                            job.filename.as_str(),
                            text::as_text(&job.name),
                        ),
                    ),
                ),
                Err(e) => Err(e),
            },
            (Normalization::Planned(plan), NormalizeEvent::Bytes(data)) => {
                if plan.transcode != Transcode::Keep {
                    if let Err(e) = check_output(&data) {
                        return Err(e);
                    }
                }
                if plan.waveform {
                    Ok(Normalization::Made(plan, data))
                } else {
                    Ok(Normalization::Finished(plan.finish(data, None)))
                }
            },
            (Normalization::Made(plan, data), NormalizeEvent::Waveform(waveform)) => Ok(
                Normalization::Finished(plan.finish(data, waveform)),
            ),
            _ => Err(String::new()),
        }
    }
}

// ---------------------------------------------------------------------------
// Runs of ffprobe and ffmpeg
// ---------------------------------------------------------------------------

/// The arguments of an `ffprobe` run; the source follows.
pub open spec fn ffprobe_args_spec() -> Seq<&'static str> {
    seq![
        "-hide_banner",
        "-loglevel",
        "error",
        "-of",
        "json",
        "-show_streams",
        "-show_format",
        "-select_streams",
        "a:0",
    ]
}

/// The arguments of an `ffprobe` run; the source follows.
pub fn ffprobe_args() -> (r: Vec<&'static str>)
    ensures
        r@ == ffprobe_args_spec(),
{
    vec![
        "-hide_banner",
        "-loglevel",
        "error",
        "-of",
        "json",
        "-show_streams",
        "-show_format",
        "-select_streams",
        "a:0",
    ]
}

/// The first arguments of a transcode; the source, the codec's arguments and the target follow.
pub open spec fn ffmpeg_args_spec() -> Seq<&'static str> {
    seq!["-hide_banner", "-loglevel", "error", "-y", "-i"]
}

/// The first arguments of a transcode; the source, the codec's arguments and the target follow.
pub fn ffmpeg_args() -> (r: Vec<&'static str>)
    ensures
        r@ == ffmpeg_args_spec(),
{
    vec!["-hide_banner", "-loglevel", "error", "-y", "-i"]
}

/// The arguments of the run that decodes a voice note from its input to samples on its output:
/// mono, 16 bits, 8 kHz.
pub open spec fn waveform_args_spec() -> Seq<&'static str> {
    seq![
        "-hide_banner",
        "-loglevel",
        "error",
        "-f",
        "ogg",
        "-i",
        "pipe:0",
        "-vn",
        "-ac",
        "1",
        "-ar",
        "8000",
        "-f",
        "s16le",
        "pipe:1",
    ]
}

/// The arguments of the run that decodes a voice note to samples.
pub fn waveform_args() -> (r: Vec<&'static str>)
    ensures
        r@ == waveform_args_spec(),
{
    vec![
        "-hide_banner",
        "-loglevel",
        "error",
        "-f",
        "ogg",
        "-i",
        "pipe:0",
        "-vn",
        "-ac",
        "1",
        "-ar",
        "8000",
        "-f",
        "s16le",
        "pipe:1",
    ]
}

/// The codec's arguments of a transcode.
pub open spec fn codec_args_spec(t: Transcode) -> Seq<Seq<char>> {
    match t {
        Transcode::Keep => Seq::empty(),
        Transcode::Opus { sample_rate, bitrate_bps } => seq![
            "-vn"@,
            "-ac"@,
            "1"@,
            "-ar"@,
            text::decimal(sample_rate as nat),
            "-c:a"@,
            "libopus"@,
            "-b:a"@,
            text::decimal(bitrate_bps as nat / 1000) + "k"@,
            "-f"@,
            "ogg"@,
        ],
        Transcode::Mp3 => seq![
            "-vn"@,
            "-c:a"@,
            "libmp3lame"@,
            "-b:a"@,
            "128k"@,
            "-f"@,
            "mp3"@,
        ],
    }
}

impl Transcode {
    /// The codec's arguments of a transcode; none where there is none.
    pub fn codec_args(&self) -> (r: Vec<String>)
        ensures
            text::texts(r@) == codec_args_spec(*self),
    {
        let args: Vec<String> = match self {
            Transcode::Keep => Vec::new(),
            Transcode::Opus { sample_rate, bitrate_bps } => {
                let rate = text::to_decimal(*sample_rate as u64);
                let kilobits = text::to_decimal((*bitrate_bps / 1000) as u64);
                let bitrate = text::concat2(kilobits.as_str(), "k");
                vec![
                    "-vn".to_owned(),
                    "-ac".to_owned(),
                    "1".to_owned(),
                    "-ar".to_owned(),
                    rate,
                    "-c:a".to_owned(),
                    "libopus".to_owned(),
                    "-b:a".to_owned(),
                    bitrate,
                    "-f".to_owned(),
                    "ogg".to_owned(),
                ]
            },
            Transcode::Mp3 => vec![
                "-vn".to_owned(),
                "-c:a".to_owned(),
                "libmp3lame".to_owned(),
                "-b:a".to_owned(),
                "128k".to_owned(),
                "-f".to_owned(),
                "mp3".to_owned(),
            ],
        };
        assert(text::texts(args@) =~= codec_args_spec(*self));
        args
    }

    /// The extension of a transcode's target; `None` where there is no transcode.
    pub fn target_extension(&self) -> (r: Option<&'static str>)
        ensures
            match self {
                Transcode::Keep => r is None,
                Transcode::Opus { .. } => r matches Some(e) && e@ == "ogg"@,
                Transcode::Mp3 => r matches Some(e) && e@ == "mp3"@,
            },
    {
        match self {
            Transcode::Keep => None,
            Transcode::Opus { .. } => Some("ogg"),
            Transcode::Mp3 => Some("mp3"),
        }
    }
}

/// The directory, below the one for temporary files, that transcodes are written to.
pub const SCRATCH_DIR: &'static str = "librefang_audio_norm";

impl Transcode {
    /// The name of a transcode's target in [`SCRATCH_DIR`], made of `id`; `None` where there is no
    /// transcode.
    pub fn scratch_name(&self, id: &str) -> (r: Option<String>)
        ensures
            text::opt_string(r) == match self {
                Transcode::Keep => None,
                Transcode::Opus { .. } => Some(id@ + "."@ + "ogg"@),
                Transcode::Mp3 => Some(id@ + "."@ + "mp3"@),
            },
    {
        match self.target_extension() {
            Some(ext) => Some(text::concat3(id, ".", ext)),
            None => None,
        }
    }
}

/// Refuses a transcode that ended with a failure.
pub fn check_transcode(success: bool, status: &str, stderr: &str) -> (r: Result<(), String>)
    ensures
        match r {
            Ok(_) => success,
            Err(e) => !success && e@ == "ffmpeg exited with "@ + status@ + ": "@ + text::trimmed(
                stderr@,
            ),
        },
{
    if !success {
        let mut e = text::concat3("ffmpeg exited with ", status, ": ");
        e.append(text::trim(stderr).as_str());
        return Err(e);
    }
    Ok(())
}

/// Refuses a transcode that wrote nothing.
pub fn check_output(bytes: &Vec<u8>) -> (r: Result<(), String>)
    ensures
        match r {
            Ok(_) => bytes@.len() > 0,
            Err(e) => bytes@.len() == 0 && e@ == "ffmpeg produced an empty output"@,
        },
{
    if bytes.len() == 0 {
        return Err("ffmpeg produced an empty output".to_owned());
    }
    Ok(())
}

// ---------------------------------------------------------------------------
// Waveforms
// ---------------------------------------------------------------------------

/// The number of bars in a waveform.
pub const WAVEFORM_SAMPLES: usize = 64;

/// The lowest bar: none is ever invisible.
pub const WAVEFORM_FLOOR: u8 = 3;

/// How long the decoding of a voice note may take, in seconds.
pub const WAVEFORM_TIMEOUT_SECS: u64 = 3;

/// A sample of two bytes, the low one first, in two's complement.
pub open spec fn sample_value(lo: u8, hi: u8) -> int {
    let unsigned = lo + 256 * hi;
    if unsigned < 32_768 {
        unsigned
    } else {
        unsigned - 65_536
    }
}

/// The sample at position `j`.
pub open spec fn sample_at(pcm: Seq<u8>, j: int) -> int {
    sample_value(pcm[2 * j], pcm[2 * j + 1])
}

/// The sum of the squares of the samples from `from` up to `to`.
pub open spec fn energy(pcm: Seq<u8>, from: int, to: int) -> int
    decreases to - from,
{
    if from >= to {
        0
    } else {
        energy(pcm, from, to - 1) + sample_at(pcm, to - 1) * sample_at(pcm, to - 1)
    }
}

/// The length of a window, of `n` samples.
pub open spec fn window_len(n: int) -> int {
    if n / 64 >= 1 {
        n / 64
    } else {
        1
    }
}

/// Where window `i` of `n` samples begins.
pub open spec fn window_start(n: int, i: int) -> int {
    i * window_len(n)
}

/// Where window `i` of `n` samples ends. The last one takes what is left over.
pub open spec fn window_end(n: int, i: int) -> int {
    if i == 63 || window_start(n, i) + window_len(n) > n {
        n
    } else {
        window_start(n, i) + window_len(n)
    }
}

/// The number of samples in window `i` of `n` samples.
pub open spec fn window_count(n: int, i: int) -> int {
    if window_start(n, i) < window_end(n, i) {
        window_end(n, i) - window_start(n, i)
    } else {
        0
    }
}

/// One window of samples: the sum of their squares, and their number.
#[derive(Debug, Clone, Copy, PartialEq, Eq, Structural)]
pub struct Window {
    pub energy: u128,
    pub count: usize,
}

/// The sample of two bytes.
fn decode_sample(lo: u8, hi: u8) -> (r: i32)
    ensures
        r == sample_value(lo, hi),
        -32_768 <= r <= 32_767,
{
    let unsigned: i32 = lo as i32 + 256 * hi as i32;
    if unsigned < 32_768 {
        unsigned
    } else {
        unsigned - 65_536
    }
}

/// The sum of the squares of the samples from `from` up to `to`.
fn sum_of_squares(pcm: &[u8], from: usize, to: usize) -> (r: u128)
    requires
        from <= to <= pcm@.len() / 2,
    ensures
        r == energy(pcm@, from as int, to as int),
{
    let n: usize = pcm.len();
    let mut sum: u128 = 0;
    for j in from..to
        invariant
            n == pcm@.len(),
            from <= j <= to <= n / 2,
            sum == energy(pcm@, from as int, j as int),
            sum <= (j - from) * 1_073_741_824,
    {
        let s: i64 = decode_sample(pcm[2 * j], pcm[2 * j + 1]) as i64;
        assert(0 <= s * s <= 1_073_741_824) by (nonlinear_arith)
            requires
                -32_768 <= s <= 32_768,
        ;
        let square: u128 = (s * s) as u128;
        assert(j < 0x8000_0000_0000_0000);
        sum = sum + square;
    }
    sum
}

/// Whether `windows` are those of the samples in `pcm`.
pub open spec fn measured(pcm: Seq<u8>, windows: Seq<Window>) -> bool {
    let n = pcm.len() as int / 2;
    &&& windows.len() == WAVEFORM_SAMPLES
    &&& forall|i: int|
        0 <= i < WAVEFORM_SAMPLES ==> {
            &&& (#[trigger] windows[i]).energy == energy(
                pcm,
                window_start(n, i),
                window_end(n, i),
            )
            &&& windows[i].count == window_count(n, i)
        }
}

/// Measures the windows of a waveform in samples of two bytes, the low one first. `None` where
/// there is no sample; a last byte without its other half does not count.
pub fn waveform_windows(pcm: &[u8]) -> (r: Option<Vec<Window>>)
    ensures
        match r {
            Some(windows) => pcm@.len() >= 2 && measured(pcm@, windows@),
            None => pcm@.len() < 2,
        },
{
    let bytes: usize = pcm.len();
    if bytes < 2 {
        return None;
    }
    let n: usize = bytes / 2;
    let window: usize = if n / 64 >= 1 {
        n / 64
    } else {
        1
    };
    let mut windows: Vec<Window> = Vec::new();
    for i in 0..WAVEFORM_SAMPLES
        invariant
            bytes == pcm@.len(),
            n == bytes / 2,
            n >= 1,
            window == window_len(n as int),
            64 * window <= n || window == 1,
            windows@.len() == i,
            forall|k: int|
                0 <= k < i ==> {
                    &&& (#[trigger] windows@[k]).energy == energy(
                        pcm@,
                        window_start(n as int, k),
                        window_end(n as int, k),
                    )
                    &&& windows@[k].count == window_count(n as int, k)
                },
    {
        assert(0 <= i * window && (i + 1) * window <= 64 * window && (i + 1) * window == i * window
            + window) by (nonlinear_arith)
            requires
                0 <= i < 64,
                window >= 1,
        ;
        let start: usize = i * window;
        let end: usize = if i == WAVEFORM_SAMPLES - 1 {
            n
        } else if start + window > n {
            n
        } else {
            start + window
        };
        if start < end {
            let energy = sum_of_squares(pcm, start, end);
            windows.push(Window { energy, count: end - start });
        } else {
            windows.push(Window { energy: 0, count: 0 });
        }
    }
    Some(windows)
}

/// Measures the waveform of a voice note, given the samples that it was decoded to. `None` where
/// the voice note is empty, could not be decoded, or holds no sample.
pub fn voice_waveform(ogg_bytes: &[u8], decoded: Option<&[u8]>) -> (r: Option<Vec<Window>>)
    ensures
        match decoded {
            Some(pcm) => if ogg_bytes@.len() > 0 && pcm@.len() >= 2 {
                r matches Some(windows) && measured(pcm@, windows@)
            } else {
                r is None
            },
            None => r is None,
        },
{
    if ogg_bytes.len() == 0 {
        return None;
    }
    match decoded {
        Some(pcm) => waveform_windows(pcm),
        None => None,
    }
}

/// The bar for a level, where the loudest window is at 100.
pub open spec fn bar(level: int) -> int {
    if level < WAVEFORM_FLOOR {
        WAVEFORM_FLOOR as int
    } else if level > 100 {
        100
    } else {
        level
    }
}

/// The bars for levels, where the loudest window is at 100. Silence is all at the floor.
pub fn waveform_bars(levels: &Vec<i32>) -> (r: Vec<u8>)
    ensures
        r@.len() == levels@.len(),
        forall|i: int| 0 <= i < r@.len() ==> (#[trigger] r@[i]) == bar(levels@[i] as int),
{
    let mut out: Vec<u8> = Vec::new();
    for i in 0..levels.len()
        invariant
            out@.len() == i,
            forall|k: int| 0 <= k < i ==> (#[trigger] out@[k]) == bar(levels@[k] as int),
    {
        let level: i32 = levels[i];
        if level < WAVEFORM_FLOOR as i32 {
            out.push(WAVEFORM_FLOOR);
        } else if level > 100 {
            out.push(100);
        } else {
            out.push(level as u8);
        }
    }
    out
}

// ---------------------------------------------------------------------------
// Laws
// ---------------------------------------------------------------------------

/// WhatsApp always gets a voice note, whatever is asked for.
pub proof fn law_whatsapp_gets_voice_notes(
    delivery: DeliveryMode,
    source: Source,
    filename: Seq<char>,
    name: Option<Seq<char>>,
)
    ensures
        ({
            let plan = planned(ChannelProfile::WhatsApp, delivery, source, filename, name);
            &&& plan.is_voice_note
            &&& plan.mime_type == VOICE_NOTE_MIME@
            &&& plan.waveform
            &&& plan.transcode == Transcode::Keep <==> source.opus_mono()
            &&& plan.transcode != Transcode::Keep ==> plan.transcode == (Transcode::Opus {
                sample_rate: 16_000,
                bitrate_bps: 32_000,
            })
        }),
{
}

/// A form that is asked for is the form that is delivered, but for a music file to WhatsApp.
pub proof fn law_asked_form_is_delivered(
    profile: ChannelProfile,
    source: Source,
    filename: Seq<char>,
    name: Option<Seq<char>>,
)
    ensures
        planned(profile, DeliveryMode::VoiceNote, source, filename, name).is_voice_note,
        profile != ChannelProfile::WhatsApp ==> !planned(
            profile,
            DeliveryMode::MusicFile,
            source,
            filename,
            name,
        ).is_voice_note,
{
}

/// Left to itself, Telegram sends a short mono source as a voice note and any other as music.
pub proof fn law_telegram_splits_voice_and_music(
    source: Source,
    filename: Seq<char>,
    name: Option<Seq<char>>,
)
    ensures
        ({
            let plan = planned(
                ChannelProfile::Telegram,
                DeliveryMode::Auto,
                source,
                filename,
                name,
            );
            plan.is_voice_note <==> source.channels == 1 && 0 < source.duration_seconds <= 60
        }),
{
}

/// Slack, Discord and channels without a profile get the file as it is, under its own name.
pub proof fn law_other_channels_pass_through(
    profile: ChannelProfile,
    delivery: DeliveryMode,
    source: Source,
    filename: Seq<char>,
    name: Option<Seq<char>>,
)
    requires
        profile == ChannelProfile::Slack || profile == ChannelProfile::Discord || profile
            == ChannelProfile::Unknown,
    ensures
        ({
            let plan = planned(profile, delivery, source, filename, name);
            &&& plan.transcode == Transcode::Keep
            &&& plan.filename == filename
            &&& plan.mime_type == source.mime()
            &&& !plan.waveform
        }),
{
}

/// A voice note for a channel that has them carries the MIME type and the extension of one.
pub proof fn law_voice_notes_are_ogg(
    profile: ChannelProfile,
    delivery: DeliveryMode,
    source: Source,
    filename: Seq<char>,
    name: Option<Seq<char>>,
)
    requires
        profile == ChannelProfile::WhatsApp || profile == ChannelProfile::Telegram || profile
            == ChannelProfile::Signal,
        name matches Some(n) ==> n.len() > 0,
        planned(profile, delivery, source, filename, name).is_voice_note,
    ensures
        ({
            let plan = planned(profile, delivery, source, filename, name);
            &&& is_voice_note_mime(plan.mime_type)
            &&& file_names::extension_of(plan.filename) == Some("ogg"@)
        }),
{
    reveal_strlit("ogg");
    reveal_strlit("audio/ogg; codecs=opus");
    let mime = VOICE_NOTE_MIME@;
    assert(mime.subrange(6, 9) == "ogg"@);
    assert(text::occurs_at(mime, "ogg"@, 6));
    law_forced_extension_is_there(name, "ogg"@);
}

/// What the events that came so far lead to; `None` where one of them refused the source or does
/// not answer the action of its stage.
pub open spec fn stage_after(job: Job, events: Seq<NormalizeEvent>) -> Option<Stage>
    decreases events.len(),
{
    if events.len() == 0 {
        Some(Stage::Unmeasured)
    } else {
        match stage_after(job, events.drop_last()) {
            Some(stage) => if answers(stage, events.last()) {
                match next_stage(job, stage, events.last()) {
                    Ok(next) => Some(next),
                    Err(_) => None,
                }
            } else {
                None
            },
            None => None,
        }
    }
}

/// The size guard comes first: whatever is done with a source, be it a probe, a read or a
/// transcode, its size was found first and is within the cap.
pub proof fn law_size_guard_comes_first(job: Job, events: Seq<NormalizeEvent>)
    requires
        stage_after(job, events) matches Some(stage) && action_at(stage)
            != NormalizeAction::Measure,
    ensures
        events.len() > 0,
        events[0] matches NormalizeEvent::Size(len) && len <= MAX_SOURCE_BYTES,
    decreases events.len(),
{
    let front = events.drop_last();
    let stage = stage_after(job, front)->0;
    if action_at(stage) != NormalizeAction::Measure {
        law_size_guard_comes_first(job, front);
        assert(front[0] == events[0]);
    } else {
        lemma_only_the_start_measures(job, front);
    }
}

/// Only before the first event is the size still to be found.
proof fn lemma_only_the_start_measures(job: Job, events: Seq<NormalizeEvent>)
    requires
        stage_after(job, events) == Some(Stage::Unmeasured),
    ensures
        events.len() == 0,
{
}

/// The steps of a file that is delivered, in order: its size within the cap, a probe that finds
/// audio, its bytes, read or transcoded as planned, and a waveform exactly where the plan has one.
pub proof fn law_finished_file_went_through_every_step(
    job: Job,
    events: Seq<NormalizeEvent>,
    audio: Audio,
)
    requires
        stage_after(job, events) == Some(Stage::Finished(audio)),
    ensures
        events.len() >= 3,
        events[0] matches NormalizeEvent::Size(len) && len <= MAX_SOURCE_BYTES,
        ({
            &&& events[1] matches NormalizeEvent::Probed(outcome)
            &&& probed_source(job.ext, outcome) matches Ok(source)
            &&& events[2] matches NormalizeEvent::Bytes(data)
            &&& job_plan(job, source).transcode != Transcode::Keep ==> data@.len() > 0
            &&& if job_plan(job, source).waveform {
                &&& events.len() == 4
                &&& events[3] matches NormalizeEvent::Waveform(waveform)
                &&& audio == finished(job_plan(job, source), data@, opt_bytes(waveform))
            } else {
                &&& events.len() == 3
                &&& audio == finished(job_plan(job, source), data@, None)
            }
        }),
{
    let last = events.drop_last();
    let stage = stage_after(job, last)->0;
    if stage is Made {
        let front = last.drop_last();
        assert(stage_after(job, front)->0 is Planned);
        lemma_planned_after_two(job, front);
        assert(front[0] == events[0] && front[1] == events[1]);
        assert(last.last() == events[2]);
    } else {
        lemma_planned_after_two(job, last);
        assert(last[0] == events[0] && last[1] == events[1]);
    }
}

/// A plan stands after the size and the probe.
proof fn lemma_planned_after_two(job: Job, events: Seq<NormalizeEvent>)
    requires
        stage_after(job, events) matches Some(stage) && stage is Planned,
    ensures
        events.len() == 2,
        events[0] matches NormalizeEvent::Size(len) && len <= MAX_SOURCE_BYTES,
        ({
            &&& events[1] matches NormalizeEvent::Probed(outcome)
            &&& probed_source(job.ext, outcome) matches Ok(source)
            &&& stage_after(job, events) == Some(Stage::Planned(job_plan(job, source)))
        }),
{
    let one = events.drop_last();
    assert(stage_after(job, one) == Some(Stage::Measured));
    let none = one.drop_last();
    assert(stage_after(job, none) == Some(Stage::Unmeasured));
    lemma_only_the_start_measures(job, none);
    assert(one.last() == events[0]);
}

/// The extensions that are taken for audio are those that suggest a format.
pub proof fn law_audio_extensions_have_formats(ext: Seq<char>)
    ensures
        is_audio_extension(ext) <==> source_for_extension(ext).channels > 0,
{
    let e = text::ascii_lowered(ext);
    let all = audio_extensions_spec();
    assert(all[0]@ == "mp3"@);
    assert(all[1]@ == "ogg"@);
    assert(all[2]@ == "oga"@);
    assert(all[3]@ == "opus"@);
    assert(all[4]@ == "wav"@);
    assert(all[5]@ == "m4a"@);
    assert(all[6]@ == "aac"@);
    assert(all[7]@ == "flac"@);
}

/// The window that sample `j` of `n` stands in.
pub open spec fn window_of(n: int, j: int) -> int {
    if j / window_len(n) < 63 {
        j / window_len(n)
    } else {
        63
    }
}

/// The windows of a waveform share the samples out: each one stands in one window and in no
/// other.
pub proof fn law_windows_share_the_samples_out(n: int, j: int)
    requires
        0 <= j < n,
    ensures
        0 <= window_of(n, j) < WAVEFORM_SAMPLES,
        forall|i: int|
            0 <= i < WAVEFORM_SAMPLES ==> (#[trigger] window_start(n, i) <= j < window_end(n, i)
                <==> i == window_of(n, j)),
{
    let w = window_len(n);
    let q = j / w;
    assert(q * w <= j < q * w + w && q >= 0) by (nonlinear_arith)
        requires
            w >= 1,
            j >= 0,
            q == j / w,
    ;
    assert forall|i: int| 0 <= i < WAVEFORM_SAMPLES implies (#[trigger] window_start(n, i) <= j
        < window_end(n, i) <==> i == window_of(n, j)) by {
        let start = window_start(n, i);
        if i < q {
            assert(i * w + w <= q * w) by (nonlinear_arith)
                requires
                    i + 1 <= q,
                    w >= 1,
            ;
        }
        if i > q {
            assert(i * w >= q * w + w) by (nonlinear_arith)
                requires
                    i >= q + 1,
                    w >= 1,
            ;
        }
    }
}

/// A stem is never empty where a name is not.
proof fn lemma_stem_is_not_empty(name: Option<Seq<char>>)
    requires
        name matches Some(n) ==> n.len() > 0,
    ensures
        (match name {
            Some(n) => file_names::stem_of(n),
            None => "audio"@,
        }).len() > 0,
{
    match name {
        Some(n) => file_names::lemma_last_at(n, '.'),
        None => {
            reveal_strlit("audio");
            assert("audio"@.len() == 5);
        },
    }
}

/// A name that was given an extension has that extension.
pub proof fn law_forced_extension_is_there(name: Option<Seq<char>>, ext: Seq<char>)
    requires
        name matches Some(n) ==> n.len() > 0,
        !ext.contains('.'),
    ensures
        file_names::extension_of(name_with(name, ext)) == Some(ext),
{
    let stem = match name {
        Some(n) => file_names::stem_of(n),
        None => "audio"@,
    };
    lemma_stem_is_not_empty(name);
    file_names::lemma_last_dot(stem, ext);
    assert(name_with(name, ext).skip(stem.len() as int + 1) == ext);
}

/// Giving a name an extension that it has already changes nothing.
pub proof fn law_forcing_twice_is_forcing_once(name: Option<Seq<char>>, ext: Seq<char>)
    requires
        name matches Some(n) ==> n.len() > 0,
        !ext.contains('.'),
    ensures
        name_with(Some(name_with(name, ext)), ext) == name_with(name, ext),
{
    let stem = match name {
        Some(n) => file_names::stem_of(n),
        None => "audio"@,
    };
    lemma_stem_is_not_empty(name);
    file_names::lemma_last_dot(stem, ext);
    assert(name_with(name, ext).take(stem.len() as int) == stem);
}

/// On a path that means the same on every platform, the name that [`force_extension`] gives is a
/// plain name: it is its own last name.
pub proof fn law_forced_name_is_plain(path: Seq<char>, ext: Seq<char>)
    requires
        ext.len() > 0,
        !ext.contains('/'),
    ensures
        ({
            let whole = name_with(file_names::name_in(path), ext);
            file_names::name_in(whole) == Some(whole)
        }),
{
    let name = file_names::name_in(path);
    let pieces = text::split_on(path, '/');
    let stem = match name {
        Some(n) => file_names::stem_of(n),
        None => "audio"@,
    };
    let whole = name_with(name, ext);
    file_names::lemma_last_name(pieces);
    lemma_stem_is_not_empty(name);
    assert(!stem.contains('/')) by {
        match name {
            Some(n) => {
                file_names::lemma_last_at(n, '.');
                text::lemma_split_joined(path, '/');
                assert(!n.contains('/'));
                if stem.contains('/') {
                    let i = choose|i: int| 0 <= i < stem.len() && stem[i] == '/';
                    assert(n[i] == '/');
                }
            },
            None => {
                reveal_strlit("audio");
                assert("audio"@ == seq!['a', 'u', 'd', 'i', 'o']);
            },
        }
    }
    assert(!whole.contains('/')) by {
        if whole.contains('/') {
            let i = choose|i: int| 0 <= i < whole.len() && whole[i] == '/';
            if i < stem.len() {
                assert(stem[i] == '/');
            } else {
                assert(whole[i] == ext[i - stem.len() - 1]);
            }
        }
    }
    let single = seq![whole];
    text::lemma_joined_split(single, '/');
    assert(text::joined(single, seq!['/']) == whole);
    assert(text::split_on(whole, '/') == single);
    assert(whole.len() >= 3);
    assert(single.last() == whole);
}

/// A voice note for WhatsApp, Telegram or Signal keeps the source's bytes if and only if the
/// source is Opus in Ogg with one channel; any other source becomes Opus, at 32 kbit/s and 16 kHz
/// for WhatsApp, at 64 kbit/s for the others, and at 16 kHz there only where a voice note was
/// asked for.
pub proof fn law_voice_notes_are_opus(
    profile: ChannelProfile,
    delivery: DeliveryMode,
    source: Source,
    filename: Seq<char>,
    name: Option<Seq<char>>,
)
    requires
        profile == ChannelProfile::WhatsApp || profile == ChannelProfile::Telegram || profile
            == ChannelProfile::Signal,
        planned(profile, delivery, source, filename, name).is_voice_note,
    ensures
        ({
            let plan = planned(profile, delivery, source, filename, name);
            let is_one = text::ascii_lowered(source.codec_name) == "opus"@ && text::ascii_lowered(
                source.container_name,
            ) == "ogg"@ && source.channels == 1;
            &&& is_one ==> plan.transcode == Transcode::Keep
            &&& !is_one && profile == ChannelProfile::WhatsApp ==> plan.transcode == (
            Transcode::Opus { sample_rate: 16_000, bitrate_bps: 32_000 })
            &&& !is_one && profile != ChannelProfile::WhatsApp && delivery
                == DeliveryMode::VoiceNote ==> plan.transcode == (Transcode::Opus {
                sample_rate: 16_000,
                bitrate_bps: 64_000,
            })
            &&& !is_one && profile != ChannelProfile::WhatsApp && delivery
                != DeliveryMode::VoiceNote ==> plan.transcode == (Transcode::Opus {
                sample_rate: 48_000,
                bitrate_bps: 64_000,
            })
            &&& plan.mime_type == "audio/ogg; codecs=opus"@
            &&& plan.filename == name_with(name, "ogg"@)
        }),
{
}

/// What is delivered is what its MIME type says: bytes that are kept go under the source's own
/// type, bytes that are transcoded under that of the codec they are transcoded to. So a source
/// whose type is not the one that is delivered is transcoded.
pub proof fn law_bytes_are_what_the_mime_type_says(
    profile: ChannelProfile,
    delivery: DeliveryMode,
    source: Source,
    filename: Seq<char>,
    name: Option<Seq<char>>,
)
    ensures
        ({
            let plan = planned(profile, delivery, source, filename, name);
            &&& plan.mime_type != source.mime() ==> plan.transcode != Transcode::Keep
            &&& plan.transcode is Opus ==> plan.mime_type == "audio/ogg; codecs=opus"@
                && plan.filename == name_with(name, "ogg"@)
            &&& plan.transcode is Mp3 ==> plan.mime_type == "audio/mpeg"@ && plan.filename
                == name_with(name, "mp3"@)
        }),
{
}

/// Which files are voice notes: all that are asked for as such; of those that are asked for as
/// music only WhatsApp's; and where nothing is asked for, WhatsApp's, and those of Telegram and
/// Signal that have one channel and last from one to sixty seconds.
pub proof fn law_which_files_are_voice_notes(
    profile: ChannelProfile,
    source: Source,
    filename: Seq<char>,
    name: Option<Seq<char>>,
)
    ensures
        planned(profile, DeliveryMode::VoiceNote, source, filename, name).is_voice_note,
        planned(profile, DeliveryMode::MusicFile, source, filename, name).is_voice_note <==> profile
            == ChannelProfile::WhatsApp,
        planned(profile, DeliveryMode::Auto, source, filename, name).is_voice_note <==> profile
            == ChannelProfile::WhatsApp || ((profile == ChannelProfile::Telegram || profile
            == ChannelProfile::Signal) && source.channels == 1 && 1 <= source.duration_seconds
            <= 60),
{
}

/// A file that is no voice note keeps its bytes, its name and its type, but for one that goes to
/// Telegram in a codec that is not MP3, AAC, M4A, ALAC, FLAC or WAV: that becomes MP3.
pub proof fn law_other_files_are_kept_but_for_telegram(
    profile: ChannelProfile,
    delivery: DeliveryMode,
    source: Source,
    filename: Seq<char>,
    name: Option<Seq<char>>,
)
    requires
        !planned(profile, delivery, source, filename, name).is_voice_note,
    ensures
        ({
            let plan = planned(profile, delivery, source, filename, name);
            let codec = text::ascii_lowered(source.codec_name);
            let plays = codec == "mp3"@ || codec == "aac"@ || codec == "m4a"@ || codec == "alac"@
                || codec == "flac"@ || codec == "wav"@;
            &&& profile == ChannelProfile::Telegram && !plays ==> plan.transcode == Transcode::Mp3
            &&& profile != ChannelProfile::Telegram || plays ==> {
                &&& plan.transcode == Transcode::Keep
                &&& plan.filename == filename
                &&& plan.mime_type == source.mime()
            }
        }),
{
}

/// Whatever becomes of a source, its duration and the profile are passed on, and a waveform is
/// shown by WhatsApp alone.
pub proof fn law_plan_passes_duration_and_profile_on(
    profile: ChannelProfile,
    delivery: DeliveryMode,
    source: Source,
    filename: Seq<char>,
    name: Option<Seq<char>>,
)
    ensures
        ({
            let plan = planned(profile, delivery, source, filename, name);
            &&& plan.duration_seconds == source.duration_seconds
            &&& plan.profile == profile
            &&& plan.waveform <==> profile == ChannelProfile::WhatsApp
        }),
{
}

/// The MIME type goes with the codec, in any case of letters, and with nothing else.
pub proof fn law_mime_type_goes_with_the_codec(source: Source)
    ensures
        ({
            let codec = text::ascii_lowered(source.codec_name);
            let mime = source.mime();
            &&& codec == "opus"@ ==> mime == "audio/ogg; codecs=opus"@
            &&& codec == "vorbis"@ ==> mime == "audio/ogg"@
            &&& codec == "mp3"@ ==> mime == "audio/mpeg"@
            &&& codec == "aac"@ || codec == "m4a"@ || codec == "alac"@ ==> mime == "audio/mp4"@
            &&& codec == "flac"@ ==> mime == "audio/flac"@
            &&& codec == "wav"@ || codec == "pcm_s16le"@ || codec == "pcm_s24le"@ ==> mime
                == "audio/wav"@
            &&& codec != "opus"@ && codec != "vorbis"@ && codec != "mp3"@ && codec != "aac"@ && codec
                != "m4a"@ && codec != "alac"@ && codec != "flac"@ && codec != "wav"@ && codec
                != "pcm_s16le"@ && codec != "pcm_s24le"@ ==> mime == "application/octet-stream"@
        }),
{
    lemma_codec_names_differ();
}

/// The names of codecs and extensions are all different.
proof fn lemma_codec_names_differ()
    ensures
        "opus"@.len() == 4 && "opus"@[0] == 'o',
        "vorbis"@.len() == 6,
        "mp3"@.len() == 3 && "mp3"@[0] == 'm' && "mp3"@[1] == 'p',
        "aac"@.len() == 3 && "aac"@[0] == 'a',
        "m4a"@.len() == 3 && "m4a"@[0] == 'm' && "m4a"@[1] == '4',
        "alac"@.len() == 4 && "alac"@[0] == 'a',
        "flac"@.len() == 4 && "flac"@[0] == 'f',
        "wav"@.len() == 3 && "wav"@[0] == 'w',
        "pcm_s16le"@.len() == 9,
        "pcm_s24le"@.len() == 9,
        "ogg"@.len() == 3 && "ogg"@[0] == 'o' && "ogg"@[2] == 'g',
        "oga"@.len() == 3 && "oga"@[0] == 'o' && "oga"@[2] == 'a',
{
    reveal_strlit("opus");
    reveal_strlit("vorbis");
    reveal_strlit("mp3");
    reveal_strlit("aac");
    reveal_strlit("m4a");
    reveal_strlit("alac");
    reveal_strlit("flac");
    reveal_strlit("wav");
    reveal_strlit("pcm_s16le");
    reveal_strlit("pcm_s24le");
    reveal_strlit("ogg");
    reveal_strlit("oga");
}

/// What an extension suggests, in any case of letters; the duration is never known.
pub proof fn law_extensions_suggest_formats(ext: Seq<char>)
    ensures
        ({
            let e = text::ascii_lowered(ext);
            let guess = source_for_extension(ext);
            let format = (guess.container_name, guess.codec_name, guess.sample_rate, guess.channels);
            &&& guess.duration_seconds == 0
            &&& e == "ogg"@ || e == "oga"@ || e == "opus"@ ==> format == (
                "ogg"@,
                "opus"@,
                48_000u32,
                1u32,
            )
            &&& e == "mp3"@ ==> format == ("mp3"@, "mp3"@, 44_100u32, 2u32)
            &&& e == "m4a"@ || e == "aac"@ ==> format == ("mp4"@, "aac"@, 44_100u32, 2u32)
            &&& e == "wav"@ ==> format == ("wav"@, "pcm_s16le"@, 16_000u32, 1u32)
            &&& e == "flac"@ ==> format == ("flac"@, "flac"@, 44_100u32, 2u32)
            &&& e != "ogg"@ && e != "oga"@ && e != "opus"@ && e != "mp3"@ && e != "m4a"@ && e
                != "aac"@ && e != "wav"@ && e != "flac"@ ==> format == (""@, ""@, 0u32, 0u32)
        }),
{
    lemma_codec_names_differ();
}

/// A file is taken for audio by its extension, in any case of letters, if and only if it is one of
/// these.
pub proof fn law_which_extensions_are_audio(ext: Seq<char>)
    ensures
        is_audio_extension(ext) <==> ({
            let e = text::ascii_lowered(ext);
            ||| e == "mp3"@
            ||| e == "ogg"@
            ||| e == "oga"@
            ||| e == "opus"@
            ||| e == "wav"@
            ||| e == "m4a"@
            ||| e == "aac"@
            ||| e == "flac"@
        }),
{
    let all = audio_extensions_spec();
    assert(all[0]@ == "mp3"@);
    assert(all[1]@ == "ogg"@);
    assert(all[2]@ == "oga"@);
    assert(all[3]@ == "opus"@);
    assert(all[4]@ == "wav"@);
    assert(all[5]@ == "m4a"@);
    assert(all[6]@ == "aac"@);
    assert(all[7]@ == "flac"@);
}

/// A channel is known by its name, in any case of letters and with any white space round it; every
/// other channel has no profile of its own.
pub proof fn law_channels_are_known_by_name(channel: Seq<char>)
    ensures
        ({
            let name = text::ascii_lowered(text::trimmed(channel));
            let profile = profile_of(channel);
            &&& name == "whatsapp"@ || name == "wa"@ || name == "whatsapp-web"@ || name
                == "whatsapp_web"@ <==> profile == ChannelProfile::WhatsApp
            &&& name == "telegram"@ || name == "tg"@ <==> profile == ChannelProfile::Telegram
            &&& name == "signal"@ <==> profile == ChannelProfile::Signal
            &&& name == "slack"@ <==> profile == ChannelProfile::Slack
            &&& name == "discord"@ <==> profile == ChannelProfile::Discord
        }),
{
    reveal_strlit("whatsapp");
    reveal_strlit("wa");
    reveal_strlit("whatsapp-web");
    reveal_strlit("whatsapp_web");
    reveal_strlit("telegram");
    reveal_strlit("tg");
    reveal_strlit("signal");
    reveal_strlit("slack");
    reveal_strlit("discord");
    assert("whatsapp"@.len() == 8 && "whatsapp"@[0] == 'w');
    assert("wa"@.len() == 2 && "wa"@[0] == 'w');
    assert("whatsapp-web"@.len() == 12 && "whatsapp_web"@.len() == 12);
    assert("telegram"@.len() == 8 && "telegram"@[0] == 't');
    assert("tg"@.len() == 2 && "tg"@[0] == 't');
    assert("signal"@.len() == 6);
    assert("slack"@.len() == 5);
    assert("discord"@.len() == 7);
}

/// A MIME type is one of a voice note exactly where it has `opus` or `ogg` in it.
pub proof fn law_voice_note_types_name_opus_or_ogg(a: Seq<char>, b: Seq<char>, mime: Seq<char>)
    ensures
        is_voice_note_mime(a + "opus"@ + b),
        is_voice_note_mime(a + "ogg"@ + b),
        is_voice_note_mime(mime) ==> text::occurs_in(mime, "opus"@) || text::occurs_in(
            mime,
            "ogg"@,
        ),
{
    text::law_containing_is_having_in_the_middle(a + "opus"@ + b, "opus"@);
    text::law_containing_is_having_in_the_middle(a + "ogg"@ + b, "ogg"@);
}

/// An extension takes the place of the one that a name has; a name without one gets it added, and
/// a file without a name is called `audio`.
pub proof fn law_extension_takes_the_place_of_the_old_one(
    stem: Seq<char>,
    old_ext: Seq<char>,
    ext: Seq<char>,
)
    requires
        stem.len() > 0,
        !old_ext.contains('.'),
    ensures
        name_with(Some(stem + "."@ + old_ext), ext) == stem + "."@ + ext,
        name_with(Some(old_ext), ext) == old_ext + "."@ + ext,
        name_with(Some("."@ + old_ext), ext) == "."@ + old_ext + "."@ + ext,
        name_with(None, ext) == "audio."@ + ext,
{
    reveal_strlit(".");
    reveal_strlit("audio");
    reveal_strlit("audio.");
    assert("."@ == seq!['.']);
    assert("audio."@ == "audio"@ + seq!['.']);
    file_names::law_name_is_stem_and_extension(stem, old_ext);
}

/// The file name to go by: the one that is asked for; failing that the source's own; failing both
/// the caption; and failing all three `audio`.
pub proof fn law_asked_for_name_comes_first(opts: NormalizeOptions, own: Option<Seq<char>>)
    ensures
        opts.filename matches Some(f) ==> chosen_filename(opts, own) == f@,
        opts.filename is None ==> (own matches Some(n) ==> chosen_filename(opts, own) == n),
        opts.filename is None && own is None ==> (opts.caption matches Some(c) ==> chosen_filename(
            opts,
            own,
        ) == c@),
        opts.filename is None && own is None && opts.caption is None ==> chosen_filename(opts, own)
            == "audio"@,
{
}

/// A report that was written is read back: codec, rate, with or without a plus sign, the channels
/// as far as 32 bits hold them, the duration as it stands, and of the containers, which have
/// commas between them, the first.
pub proof fn law_report_is_read_back(
    codec: Seq<char>,
    rate: u32,
    rate_text: Seq<char>,
    channels: u64,
    containers: Seq<char>,
    container: Seq<char>,
    others: Seq<char>,
    duration: Seq<char>,
    digits: Seq<char>,
    more: Seq<JsonTree>,
)
    requires
        rate_text == text::decimal(rate as nat) || rate_text == "+"@ + text::decimal(rate as nat),
        !container.contains(','),
        containers == container || containers == container + ","@ + others,
    ensures
        ({
            let stream = JsonTree::Object(
                seq![
                    ("codec_type"@, JsonTree::Text("audio"@)),
                    ("codec_name"@, JsonTree::Text(codec)),
                    ("sample_rate"@, JsonTree::Text(rate_text)),
                    ("channels"@, JsonTree::Number { unsigned: Some(channels), text: digits }),
                ],
            );
            let format = JsonTree::Object(
                seq![
                    ("format_name"@, JsonTree::Text(containers)),
                    ("duration"@, JsonTree::Text(duration)),
                ],
            );
            let report = JsonTree::Object(
                seq![("streams"@, JsonTree::Array(seq![stream] + more)), ("format"@, format)],
            );
            &&& has_audio_stream(report)
            &&& reading_of(report).codec_name == codec
            &&& reading_of(report).sample_rate == rate
            &&& reading_of(report).channels == channels as int % 4_294_967_296
            &&& reading_of(report).container_name == container
            &&& reading_of(report).duration == Some(duration)
        }),
{
    lemma_report_names_differ();
    let stream_members = seq![
        ("codec_type"@, JsonTree::Text("audio"@)),
        ("codec_name"@, JsonTree::Text(codec)),
        ("sample_rate"@, JsonTree::Text(rate_text)),
        ("channels"@, JsonTree::Number { unsigned: Some(channels), text: digits }),
    ];
    let format_members = seq![
        ("format_name"@, JsonTree::Text(containers)),
        ("duration"@, JsonTree::Text(duration)),
    ];
    let stream = JsonTree::Object(stream_members);
    let format = JsonTree::Object(format_members);
    let streams = seq![stream] + more;
    let members = seq![("streams"@, JsonTree::Array(streams)), ("format"@, format)];
    let report = JsonTree::Object(members);
    json::lemma_member_at(members, 0);
    json::lemma_member_at(members, 1);
    json::lemma_member_at(stream_members, 0);
    json::lemma_member_at(stream_members, 1);
    json::lemma_member_at(stream_members, 2);
    json::lemma_member_at(stream_members, 3);
    json::lemma_member_at(format_members, 0);
    json::lemma_member_at(format_members, 1);
    assert(streams[0] == stream);
    assert(is_audio_stream(streams[0]));
    text::law_written_numbers_are_read_back(rate as nat, u32::MAX as nat);
    reveal_strlit("+");
    assert("+"@ == seq!['+']);
    reveal_strlit(",");
    assert(container + ","@ + others == container + seq![','] + others);
    text::law_splitting_cuts_at_the_separator(container, others, ',');
}

/// The names in a report are all different.
proof fn lemma_report_names_differ()
    ensures
        "codec_type"@.len() == 10 && "codec_type"@[6] == 't',
        "codec_name"@.len() == 10 && "codec_name"@[6] == 'n',
        "sample_rate"@.len() == 11 && "sample_rate"@[0] == 's',
        "channels"@.len() == 8,
        "format_name"@.len() == 11 && "format_name"@[0] == 'f',
        "duration"@.len() == 8,
        "streams"@.len() == 7,
        "format"@.len() == 6,
{
    reveal_strlit("codec_type");
    reveal_strlit("codec_name");
    reveal_strlit("sample_rate");
    reveal_strlit("channels");
    reveal_strlit("format_name");
    reveal_strlit("duration");
    reveal_strlit("streams");
    reveal_strlit("format");
}

/// A report shows audio if and only if one of its streams, whichever it is, says that it is audio.
/// What a report does not say is empty or zero.
pub proof fn law_report_shows_audio_in_any_stream(streams: Seq<JsonTree>, report: JsonTree)
    ensures
        has_audio_stream(JsonTree::Object(seq![("streams"@, JsonTree::Array(streams))]))
            <==> exists|i: int|
            0 <= i < streams.len() && (#[trigger] streams[i]).field("codec_type"@) == Some(
                JsonTree::Text("audio"@),
            ),
        has_audio_stream(report) ==> (report.field("streams"@) matches Some(JsonTree::Array(_))),
        report.field("format"@) is None ==> reading_of(report).container_name.len() == 0
            && reading_of(report).duration is None,
        ({
            let bare = JsonTree::Object(
                seq![
                    ("streams"@, JsonTree::Array(seq![JsonTree::Object(Seq::empty())] + streams)),
                ],
            );
            &&& reading_of(bare).codec_name.len() == 0
            &&& reading_of(bare).sample_rate == 0
            &&& reading_of(bare).channels == 0
        }),
{
    let members = seq![("streams"@, JsonTree::Array(streams))];
    json::lemma_member_at(members, 0);
    let shown = JsonTree::Object(members);
    assert(streams_in(shown) == Some(streams));
    if has_audio_stream(shown) {
        let i = choose|i: int| 0 <= i < streams.len() && is_audio_stream(#[trigger] streams[i]);
        assert(streams[i].field("codec_type"@) == Some(JsonTree::Text("audio"@)));
    }
    if exists|i: int|
        0 <= i < streams.len() && (#[trigger] streams[i]).field("codec_type"@) == Some(
            JsonTree::Text("audio"@),
        ) {
        let i = choose|i: int|
            0 <= i < streams.len() && (#[trigger] streams[i]).field("codec_type"@) == Some(
                JsonTree::Text("audio"@),
            );
        assert(is_audio_stream(streams[i]));
    }
    let empty = JsonTree::Object(Seq::empty());
    let first = seq![empty] + streams;
    let bare_members = seq![("streams"@, JsonTree::Array(first))];
    json::lemma_member_at(bare_members, 0);
    assert(first[0] == empty);
}

/// A sample rate that is no number, or one that 32 bits do not hold, counts as zero.
pub proof fn law_unreadable_rate_is_zero(rate: Seq<char>, n: nat)
    requires
        rate.len() == 0 || (rate[0] != '+' && exists|i: int|
            0 <= i < rate.len() && !('0' <= #[trigger] rate[i] <= '9')) || (n > u32::MAX && rate
            == text::decimal(n)),
    ensures
        ({
            let stream = JsonTree::Object(seq![("sample_rate"@, JsonTree::Text(rate))]);
            let report = JsonTree::Object(seq![("streams"@, JsonTree::Array(seq![stream]))]);
            reading_of(report).sample_rate == 0
        }),
{
    let stream_members = seq![("sample_rate"@, JsonTree::Text(rate))];
    let stream = JsonTree::Object(stream_members);
    let members = seq![("streams"@, JsonTree::Array(seq![stream]))];
    json::lemma_member_at(stream_members, 0);
    json::lemma_member_at(members, 0);
    text::law_written_numbers_are_read_back(n, u32::MAX as nat);
    text::law_only_digits_are_numbers(rate, u32::MAX as nat);
}

/// What a report gives in another form than it should counts as missing: names, rate and duration
/// that are no texts, and a number of channels that is no non-negative integer.
pub proof fn law_values_of_another_form_do_not_count(v: JsonTree, more: Seq<JsonTree>)
    ensures
        ({
            let stream = JsonTree::Object(
                seq![("codec_name"@, v), ("sample_rate"@, v), ("channels"@, v)],
            );
            let format = JsonTree::Object(seq![("format_name"@, v), ("duration"@, v)]);
            let report = JsonTree::Object(
                seq![("streams"@, JsonTree::Array(seq![stream] + more)), ("format"@, format)],
            );
            let read = reading_of(report);
            &&& !(v is Text) ==> {
                &&& read.codec_name.len() == 0
                &&& read.sample_rate == 0
                &&& read.container_name.len() == 0
                &&& read.duration is None
            }
            &&& !(v matches JsonTree::Number { unsigned: Some(_), .. }) ==> read.channels == 0
        }),
{
    lemma_report_names_differ();
    let stream_members = seq![("codec_name"@, v), ("sample_rate"@, v), ("channels"@, v)];
    let format_members = seq![("format_name"@, v), ("duration"@, v)];
    let stream = JsonTree::Object(stream_members);
    let streams = seq![stream] + more;
    let members = seq![
        ("streams"@, JsonTree::Array(streams)),
        ("format"@, JsonTree::Object(format_members)),
    ];
    json::lemma_member_at(members, 0);
    json::lemma_member_at(members, 1);
    json::lemma_member_at(stream_members, 0);
    json::lemma_member_at(stream_members, 1);
    json::lemma_member_at(stream_members, 2);
    json::lemma_member_at(format_members, 0);
    json::lemma_member_at(format_members, 1);
    assert(streams[0] == stream);
}

/// What a probe found counts as it stands. Where `ffprobe` could not be started, the extension has
/// to do; every other failure refuses the source and says why.
pub proof fn law_only_a_probe_that_does_not_start_is_guessed(
    ext: Seq<char>,
    probe: AudioProbe,
    why: String,
    status: String,
    stderr: String,
)
    ensures
        probed_source(ext, Ok(probe)) matches Ok(source) && source == probe@,
        probed_source(ext, Err(ProbeError::Spawn(why))) matches Ok(source) && source
            == source_for_extension(ext),
        probed_source(ext, Err(ProbeError::Exit { status, stderr })) matches Err(e) && e
            == "ffprobe exit "@ + status@ + ": "@ + text::trimmed(stderr@),
        probed_source(ext, Err(ProbeError::NotJson(why))) matches Err(e) && e
            == "ffprobe json parse: "@ + why@,
        probed_source(ext, Err(ProbeError::NoAudioStream)) matches Err(e) && e
            == "source has no audio stream"@,
        ProbeError::Spawn(why).text() == "spawn: "@ + why@,
{
}

/// A source of up to 64 MiB is measured and goes on; a larger one is refused, with its path, its
/// size and the cap in the reason.
pub proof fn law_size_decides(job: Job, len: u64)
    ensures
        len <= 67_108_864 ==> next_stage(job, Stage::Unmeasured, NormalizeEvent::Size(len)) == Ok::<
            Stage,
            Seq<char>,
        >(Stage::Measured),
        len > 67_108_864 ==> {
            &&& next_stage(job, Stage::Unmeasured, NormalizeEvent::Size(len)) matches Err(e)
            &&& e == "audio normalize: source '"@ + job.path + "' is "@ + text::decimal(
                len as nat,
            ) + " bytes, exceeds cap of "@ + text::decimal(67_108_864) + " bytes"@
        },
{
}

/// A job that nothing goes wrong with: its size is within the cap, the probe finds audio, and
/// bytes come. It ends with those very bytes, under the name, the type and the duration that the
/// plan has, marked as transcoded if and only if the plan transcodes, and with the waveform that
/// was measured where the plan shows one.
pub proof fn law_job_delivers_the_bytes_that_came(
    job: Job,
    len: u64,
    probe: AudioProbe,
    data: Vec<u8>,
    waveform: Option<Vec<u8>>,
)
    requires
        len <= 67_108_864,
        data@.len() > 0,
    ensures
        ({
            let plan = planned(job.profile, job.delivery, probe@, job.filename, job.name);
            let events = seq![
                NormalizeEvent::Size(len),
                NormalizeEvent::Probed(Ok(probe)),
                NormalizeEvent::Bytes(data),
            ];
            let all = if plan.waveform {
                events.push(NormalizeEvent::Waveform(waveform))
            } else {
                events
            };
            &&& stage_after(job, all) matches Some(Stage::Finished(audio))
            &&& audio.data == data@
            &&& audio.mime_type == plan.mime_type
            &&& audio.filename == plan.filename
            &&& audio.duration_seconds == plan.duration_seconds
            &&& audio.is_voice_note == plan.is_voice_note
            &&& audio.profile == plan.profile
            &&& audio.transcoded <==> plan.transcode != Transcode::Keep
            &&& !plan.waveform ==> audio.waveform is None
            &&& plan.waveform && waveform is None ==> audio.waveform is None
            &&& plan.waveform && waveform is Some ==> audio.waveform == Some(waveform->0@)
        }),
{
    let plan = planned(job.profile, job.delivery, probe@, job.filename, job.name);
    let one = seq![NormalizeEvent::Size(len)];
    let two = one.push(NormalizeEvent::Probed(Ok(probe)));
    let three = two.push(NormalizeEvent::Bytes(data));
    let four = three.push(NormalizeEvent::Waveform(waveform));
    assert(one.drop_last() == Seq::<NormalizeEvent>::empty());
    assert(stage_after(job, one.drop_last()) == Some(Stage::Unmeasured));
    assert(one.last() == NormalizeEvent::Size(len));
    assert(stage_after(job, one) == Some(Stage::Measured));
    assert(two.drop_last() == one);
    assert(stage_after(job, two) == Some(Stage::Planned(plan)));
    assert(three.drop_last() == two);
    assert(four.drop_last() == three);
    assert(seq![
        NormalizeEvent::Size(len),
        NormalizeEvent::Probed(Ok(probe)),
        NormalizeEvent::Bytes(data),
    ] == three);
    if plan.waveform {
        assert(stage_after(job, three) == Some(Stage::Made(plan, data@)));
    }
}

/// What is done next: the source is measured, then probed, then read where its bytes are kept and
/// transcoded as planned where they are not. A transcode that comes to nothing is refused, an empty
/// source that is read is not; the waveform is measured where the plan shows one.
pub proof fn law_each_stage_has_its_action(
    job: Job,
    plan: Plan,
    data: Vec<u8>,
    waveform: Option<Vec<u8>>,
    audio: Audio,
)
    ensures
        action_at(Stage::Unmeasured) == NormalizeAction::Measure,
        action_at(Stage::Measured) == NormalizeAction::Probe,
        plan.transcode == Transcode::Keep ==> action_at(Stage::Planned(plan))
            == NormalizeAction::Read,
        plan.transcode != Transcode::Keep ==> action_at(Stage::Planned(plan))
            == NormalizeAction::Transcode(plan.transcode),
        action_at(Stage::Made(plan, data@)) == NormalizeAction::MeasureWaveform,
        action_at(Stage::Finished(audio)) == NormalizeAction::Deliver,
        plan.transcode != Transcode::Keep && data@.len() == 0 ==> next_stage(
            job,
            Stage::Planned(plan),
            NormalizeEvent::Bytes(data),
        ) == Err::<Stage, Seq<char>>("ffmpeg produced an empty output"@),
        plan.transcode == Transcode::Keep || data@.len() > 0 ==> next_stage(
            job,
            Stage::Planned(plan),
            NormalizeEvent::Bytes(data),
        ) == Ok::<Stage, Seq<char>>(
            if plan.waveform {
                Stage::Made(plan, data@)
            } else {
                Stage::Finished(finished(plan, data@, None))
            },
        ),
        next_stage(job, Stage::Made(plan, data@), NormalizeEvent::Waveform(waveform)) == Ok::<
            Stage,
            Seq<char>,
        >(
            Stage::Finished(
                finished(
                    plan,
                    data@,
                    match waveform {
                        Some(w) => Some(w@),
                        None => None,
                    },
                ),
            ),
        ),
{
}

/// Each stage takes the event that comes of its action, and no other: a size, what a probe found,
/// bytes, a waveform. A finished file takes none.
pub proof fn law_each_stage_takes_one_event(
    event: NormalizeEvent,
    plan: Plan,
    data: Seq<u8>,
    audio: Audio,
)
    ensures
        answers(Stage::Unmeasured, event) <==> (event matches NormalizeEvent::Size(_)),
        answers(Stage::Measured, event) <==> (event matches NormalizeEvent::Probed(_)),
        answers(Stage::Planned(plan), event) <==> (event matches NormalizeEvent::Bytes(_)),
        answers(Stage::Made(plan, data), event) <==> (event matches NormalizeEvent::Waveform(_)),
        !answers(Stage::Finished(audio), event),
{
}

/// A finished file has the bytes that were made and says of them what the plan says; it is marked
/// as transcoded if and only if the plan transcodes, and has the waveform that was measured if and
/// only if the plan shows one.
pub proof fn law_finished_file_says_what_was_planned(
    plan: Plan,
    data: Seq<u8>,
    waveform: Option<Seq<u8>>,
)
    ensures
        ({
            let audio = finished(plan, data, waveform);
            &&& audio.data == data
            &&& audio.mime_type == plan.mime_type
            &&& audio.filename == plan.filename
            &&& audio.duration_seconds == plan.duration_seconds
            &&& audio.is_voice_note == plan.is_voice_note
            &&& audio.profile == plan.profile
            &&& audio.transcoded <==> plan.transcode != Transcode::Keep
            &&& plan.waveform ==> audio.waveform == waveform
            &&& !plan.waveform ==> audio.waveform is None
        }),
{
}

/// A transcode asks for what is planned: one channel, the sample rate and the bit rate of the plan
/// in Opus, and the container that goes with the codec; a source that is kept asks for nothing.
pub proof fn law_transcode_asks_for_what_is_planned(sample_rate: u32, bitrate_bps: u32)
    ensures
        codec_args_spec(Transcode::Keep).len() == 0,
        ({
            let args = codec_args_spec(Transcode::Opus { sample_rate, bitrate_bps });
            &&& args.len() == 11
            &&& args[0] == "-vn"@
            &&& args[1] == "-ac"@ && args[2] == "1"@
            &&& args[3] == "-ar"@ && text::digits_value(args[4]) == sample_rate
            &&& args[5] == "-c:a"@ && args[6] == "libopus"@
            &&& args[7] == "-b:a"@ && args[8].last() == 'k' && text::digits_value(
                args[8].drop_last(),
            ) == bitrate_bps / 1000
            &&& args[9] == "-f"@ && args[10] == "ogg"@
        }),
        ({
            let args = codec_args_spec(Transcode::Mp3);
            &&& args.len() == 7
            &&& args[0] == "-vn"@
            &&& args[1] == "-c:a"@ && args[2] == "libmp3lame"@
            &&& args[3] == "-b:a"@ && args[4] == "128k"@
            &&& args[5] == "-f"@ && args[6] == "mp3"@
        }),
{
    let args = codec_args_spec(Transcode::Opus { sample_rate, bitrate_bps });
    text::law_decimal_is_worth_its_number(sample_rate as nat);
    text::law_decimal_is_worth_its_number(bitrate_bps as nat / 1000);
    reveal_strlit("k");
    assert(args[8].drop_last() == text::decimal(bitrate_bps as nat / 1000));
}

/// The energy of samples: that of none is zero, that of one is the square of its value, the low
/// byte first and negative from half the range on, and that of two stretches is the sum.
pub proof fn law_energy_adds_up(pcm: Seq<u8>, from: int, mid: int, to: int)
    requires
        0 <= from <= mid <= to,
        2 * to <= pcm.len(),
    ensures
        energy(pcm, from, from) == 0,
        energy(pcm, from, to) == energy(pcm, from, mid) + energy(pcm, mid, to),
        mid < to ==> ({
            let unsigned = pcm[2 * mid] + 256 * pcm[2 * mid + 1];
            energy(pcm, mid, mid + 1) == if pcm[2 * mid + 1] < 128 {
                unsigned * unsigned
            } else {
                (65_536 - unsigned) * (65_536 - unsigned)
            }
        }),
    decreases to - mid,
{
    if mid < to {
        law_energy_adds_up(pcm, from, mid, to - 1);
        let unsigned = pcm[2 * mid] + 256 * pcm[2 * mid + 1];
        assert(energy(pcm, mid, mid) == 0);
        if pcm[2 * mid + 1] >= 128 {
            assert((unsigned - 65_536) * (unsigned - 65_536) == (65_536 - unsigned) * (65_536
                - unsigned)) by (nonlinear_arith);
        }
    }
}

/// The windows of a waveform: there are 64. Of 64 samples or more each window but the last holds a
/// sixty-fourth of them, rounded down, and the last one the rest; of fewer, each window holds one
/// sample as long as there are any.
pub proof fn law_windows_are_even(pcm: Seq<u8>, windows: Seq<Window>, i: int)
    requires
        measured(pcm, windows),
        0 <= i < 64,
    ensures
        windows.len() == 64,
        ({
            let n = pcm.len() as int / 2;
            let each = n / 64;
            &&& n >= 64 && i < 63 ==> windows[i].count == each && windows[i].energy == energy(
                pcm,
                i * each,
                i * each + each,
            )
            &&& n >= 64 && i == 63 ==> windows[i].count == n - 63 * each && windows[i].energy
                == energy(pcm, 63 * each, n)
            &&& n < 64 && i < n ==> windows[i].count == 1 && windows[i].energy == energy(
                pcm,
                i,
                i + 1,
            )
            &&& n < 64 && i >= n ==> windows[i].count == 0 && windows[i].energy == 0
        }),
{
    let n = pcm.len() as int / 2;
    let each = n / 64;
    assert(windows[i].count == window_count(n, i));
    if n >= 64 {
        assert(window_len(n) == each);
        assert(i * each + each <= 64 * each) by (nonlinear_arith)
            requires
                0 <= i < 64,
                each >= 1,
        ;
        assert(window_start(n, i) == i * each);
    } else {
        assert(window_len(n) == 1);
        assert(window_start(n, i) == i * 1);
    }
}

/// A bar is its level, kept between 3 and 100.
pub proof fn law_bars_stay_in_range(level: int, other: int)
    ensures
        3 <= bar(level) <= 100,
        3 <= level <= 100 ==> bar(level) == level,
        level <= other ==> bar(level) <= bar(other),
{
}

/// The limits: a minute for a transcode, three seconds for the decoding of a voice note, and 64
/// bars in a waveform.
pub proof fn law_limits_of_a_run()
    ensures
        FFMPEG_TIMEOUT_SECS == 60,
        WAVEFORM_TIMEOUT_SECS == 3,
        WAVEFORM_SAMPLES == 64,
{
}

/// What is said of a probe, a report, a plan and a finished file is said of each of their fields.
pub proof fn law_views_show_every_field(
    probe: AudioProbe,
    report: ProbeReport,
    plan: NormalizePlan,
    audio: NormalizedAudio,
)
    ensures
        probe@.container_name == probe.container_name@,
        probe@.codec_name == probe.codec_name@,
        probe@.sample_rate == probe.sample_rate,
        probe@.channels == probe.channels,
        probe@.duration_seconds == probe.duration_seconds,
        report@.container_name == report.container_name@,
        report@.codec_name == report.codec_name@,
        report@.sample_rate == report.sample_rate,
        report@.channels == report.channels,
        report@.duration == text::opt_string(report.duration),
        plan@.transcode == plan.transcode,
        plan@.mime_type == plan.mime_type@,
        plan@.filename == plan.filename@,
        plan@.duration_seconds == plan.duration_seconds,
        plan@.is_voice_note == plan.is_voice_note,
        plan@.profile == plan.profile,
        plan@.waveform == plan.waveform,
        audio@.data == audio.data@,
        audio@.mime_type == audio.mime_type@,
        audio@.filename == audio.filename@,
        audio@.duration_seconds == audio.duration_seconds,
        audio@.is_voice_note == audio.is_voice_note,
        audio@.profile == audio.profile,
        audio@.transcoded == audio.transcoded,
        audio.waveform matches Some(w) ==> audio@.waveform == Some(w@),
        audio.waveform is None ==> audio@.waveform is None,
{
}

} // verus!
