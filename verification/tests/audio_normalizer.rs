use std::path::Path;

use librefang::audio_normalizer::{
    audio_extensions, check_output, check_source_size, check_transcode, choose_filename,
    ffmpeg_args, ffprobe_args, force_extension, name_with_extension, plan_for_name, probe_for_name, has_audio_extension, looks_like_audio, mime_is_voice_note,
    plan_normalization, probe_audio, probe_by_extension, probe_for_extension, read_probe_output,
    read_report, voice_waveform, waveform_args, waveform_bars, waveform_windows, AudioProbe, ChannelProfile,
    DeliveryMode, Normalization, NormalizeAction, NormalizeEvent, NormalizeJob, NormalizeOptions,
    ProbeError, Transcode, MAX_SOURCE_BYTES, SCRATCH_DIR,
    WAVEFORM_FLOOR,
    WAVEFORM_SAMPLES,
};
use librefang::file_names::{extension, stem};
use librefang::json::parse_text;

#[test]
fn profile_from_channel_handles_common_aliases() {
    assert_eq!(
        ChannelProfile::from_channel("whatsapp"),
        ChannelProfile::WhatsApp
    );
    assert_eq!(
        ChannelProfile::from_channel("WhatsApp"),
        ChannelProfile::WhatsApp
    );
    assert_eq!(ChannelProfile::from_channel("wa"), ChannelProfile::WhatsApp);
    assert_eq!(
        ChannelProfile::from_channel("telegram"),
        ChannelProfile::Telegram
    );
    assert_eq!(
        ChannelProfile::from_channel("TG "),
        ChannelProfile::Telegram
    );
    assert_eq!(
        ChannelProfile::from_channel("signal"),
        ChannelProfile::Signal
    );
    assert_eq!(ChannelProfile::from_channel("slack"), ChannelProfile::Slack);
    assert_eq!(
        ChannelProfile::from_channel("discord"),
        ChannelProfile::Discord
    );
    assert_eq!(
        ChannelProfile::from_channel("mastodon"),
        ChannelProfile::Unknown
    );
    assert_eq!(ChannelProfile::from_channel(""), ChannelProfile::Unknown);
}

#[test]
fn probe_opus_mono_is_ptt_compatible() {
    let p = AudioProbe {
        container_name: "ogg".into(),
        codec_name: "opus".into(),
        sample_rate: 48_000,
        channels: 1,
        duration_seconds: 4,
    };
    assert!(p.is_opus_mono_voice_compatible());
    assert!(p.looks_like_voice_note());
}

#[test]
fn probe_stereo_opus_is_not_ptt_compatible() {
    let p = AudioProbe {
        container_name: "ogg".into(),
        codec_name: "opus".into(),
        sample_rate: 48_000,
        channels: 2,
        duration_seconds: 4,
    };
    assert!(!p.is_opus_mono_voice_compatible());
    assert!(!p.looks_like_voice_note());
}

#[test]
fn probe_mp3_is_music_compatible_not_ptt() {
    let p = AudioProbe {
        container_name: "mp3".into(),
        codec_name: "mp3".into(),
        sample_rate: 44_100,
        channels: 2,
        duration_seconds: 180,
    };
    assert!(!p.is_opus_mono_voice_compatible());
    assert!(!p.looks_like_voice_note());
    assert!(p.is_music_compatible());
}

#[test]
fn probe_by_extension_maps_known_formats() {
    let p = probe_by_extension("note.ogg");
    assert_eq!(p.codec_name, "opus");
    assert_eq!(p.channels, 1);

    let p = probe_by_extension("song.MP3");
    assert_eq!(p.codec_name, "mp3");
    assert_eq!(p.channels, 2);

    let p = probe_by_extension("blob.bin");
    assert_eq!(p.codec_name, "");
    assert_eq!(p.channels, 0);
}

#[test]
fn force_extension_preserves_stem() {
    assert_eq!(force_extension("note.wav", "ogg"), "note.ogg");
    assert_eq!(force_extension("no_ext", "mp3"), "no_ext.mp3");
    assert_eq!(force_extension("path.tar.gz", "ogg"), "path.tar.ogg");
}

#[test]
fn guessed_mime_covers_common_codecs() {
    let opus = AudioProbe {
        container_name: "ogg".into(),
        codec_name: "opus".into(),
        sample_rate: 48_000,
        channels: 1,
        duration_seconds: 0,
    };
    assert_eq!(opus.guessed_mime(), "audio/ogg; codecs=opus");

    let mp3 = AudioProbe {
        container_name: "mp3".into(),
        codec_name: "mp3".into(),
        sample_rate: 44_100,
        channels: 2,
        duration_seconds: 0,
    };
    assert_eq!(mp3.guessed_mime(), "audio/mpeg");

    let unknown = AudioProbe {
        container_name: "bin".into(),
        codec_name: "xyz".into(),
        sample_rate: 0,
        channels: 0,
        duration_seconds: 0,
    };
    assert_eq!(unknown.guessed_mime(), "application/octet-stream");
}

fn probe(container: &str, codec: &str, channels: u32, seconds: u32) -> AudioProbe {
    AudioProbe {
        container_name: container.to_string(),
        codec_name: codec.to_string(),
        sample_rate: 16_000,
        channels,
        duration_seconds: seconds,
    }
}

fn asked(delivery: DeliveryMode) -> NormalizeOptions {
    NormalizeOptions { delivery, caption: None, filename: None }
}

#[test]
fn aliases_of_whatsapp() {
    for name in ["whatsapp-web", "WHATSAPP_WEB", "\u{a0}wa\n"] {
        assert_eq!(ChannelProfile::from_channel(name), ChannelProfile::WhatsApp);
    }
    assert_eq!(ChannelProfile::from_channel("whats app"), ChannelProfile::Unknown);
}

#[test]
fn defaults_leave_the_choice_to_the_profile() {
    assert_eq!(DeliveryMode::default(), DeliveryMode::Auto);
    let opts = NormalizeOptions::default();
    assert_eq!(opts.delivery, DeliveryMode::Auto);
    assert!(opts.caption.is_none());
    assert!(opts.filename.is_none());
}

#[test]
fn voice_note_mime_types() {
    assert!(mime_is_voice_note("audio/ogg; codecs=opus"));
    assert!(mime_is_voice_note("audio/ogg"));
    assert!(mime_is_voice_note("audio/opus"));
    assert!(!mime_is_voice_note("audio/mpeg"));
    assert!(!mime_is_voice_note("AUDIO/OGG"));
}

#[test]
fn every_codec_has_a_mime_type() {
    let cases = [
        ("OPUS", "audio/ogg; codecs=opus"),
        ("vorbis", "audio/ogg"),
        ("Mp3", "audio/mpeg"),
        ("aac", "audio/mp4"),
        ("m4a", "audio/mp4"),
        ("alac", "audio/mp4"),
        ("flac", "audio/flac"),
        ("wav", "audio/wav"),
        ("pcm_s16le", "audio/wav"),
        ("pcm_s24le", "audio/wav"),
        ("", "application/octet-stream"),
    ];
    for (codec, mime) in cases {
        assert_eq!(probe("x", codec, 1, 1).guessed_mime(), mime);
    }
}

#[test]
fn codec_names_are_compared_without_case() {
    assert!(probe("OGG", "Opus", 1, 0).is_opus_mono_voice_compatible());
    assert!(!probe("webm", "opus", 1, 0).is_opus_mono_voice_compatible());
    for codec in ["MP3", "aac", "m4a", "alac", "FLAC", "wav"] {
        assert!(probe("x", codec, 2, 1).is_music_compatible());
    }
    for codec in ["opus", "vorbis", "pcm_s16le", ""] {
        assert!(!probe("x", codec, 2, 1).is_music_compatible());
    }
}

#[test]
fn voice_notes_are_short_and_mono() {
    assert!(probe("x", "y", 1, 60).looks_like_voice_note());
    assert!(!probe("x", "y", 1, 61).looks_like_voice_note());
    assert!(!probe("x", "y", 1, 0).looks_like_voice_note());
    assert!(!probe("x", "y", 2, 10).looks_like_voice_note());
}

#[test]
fn extensions_suggest_formats() {
    let shown = |ext: &str| {
        let p = probe_for_extension(ext);
        assert_eq!(p.duration_seconds, 0);
        (p.container_name, p.codec_name, p.channels, p.sample_rate)
    };
    let s = |t: &str| t.to_string();
    for ext in ["ogg", "oga", "OPUS"] {
        assert_eq!(shown(ext), (s("ogg"), s("opus"), 1, 48_000));
    }
    assert_eq!(shown("mp3"), (s("mp3"), s("mp3"), 2, 44_100));
    assert_eq!(shown("M4A"), (s("mp4"), s("aac"), 2, 44_100));
    assert_eq!(shown("aac"), (s("mp4"), s("aac"), 2, 44_100));
    assert_eq!(shown("wav"), (s("wav"), s("pcm_s16le"), 1, 16_000));
    assert_eq!(shown("flac"), (s("flac"), s("flac"), 2, 44_100));
    assert_eq!(shown("txt"), (s(""), s(""), 0, 0));
    assert_eq!(shown(""), (s(""), s(""), 0, 0));
}

#[test]
fn audio_extensions_are_those_that_suggest_a_format() {
    for ext in audio_extensions() {
        assert!(probe_for_extension(ext).channels > 0, "{ext}");
        assert!(has_audio_extension(ext));
        assert!(has_audio_extension(&ext.to_uppercase()));
    }
    for ext in ["txt", "mp", "mp33", ""] {
        assert!(!has_audio_extension(ext));
        assert_eq!(probe_for_extension(ext).channels, 0);
    }
}

#[test]
fn a_probe_decides_where_the_extension_does_not() {
    assert!(looks_like_audio("mp3", None));
    assert!(looks_like_audio("MP3", Some(false)));
    for ext in ["bin", ""] {
        assert!(looks_like_audio(ext, Some(true)));
        assert!(!looks_like_audio(ext, Some(false)));
        assert!(!looks_like_audio(ext, None));
    }
}

#[test]
fn file_names_agree_with_the_standard_library() {
    let paths = [
        "", "/", "//", ".", "..", "./", "../", "a", "a/", "a//", "a/.", "a/./", "a/..", "a/../b",
        "./a", "/a", "/a/b.c", "a.b", "a.b.c", ".a", ".a.b", "..a", "..a.b", "a.", ".a.", "a..",
        "a..b", "...", "a/.b/..c", "a b.c d", "è/ü.ñ", "a/b.c/", "a\\b.c", ". ", "x/.hidden",
        "/tmp/ambrogio/greeting.mp3",
    ];
    for path in paths {
        let p = Path::new(path);
        let name = p.file_name().and_then(|n| n.to_str());
        let ext = p.extension().and_then(|e| e.to_str()).unwrap_or("");
        assert_eq!(name.map(extension).unwrap_or_default(), ext, "extension of {path:?}");
        let kept = p.file_stem().and_then(|s| s.to_str());
        assert_eq!(name.map(stem).as_deref(), kept, "stem of {path:?}");
        let forced = format!("{}.ogg", kept.unwrap_or("audio"));
        assert_eq!(force_extension(path, "ogg"), forced, "forced on {path:?}");
        assert_eq!(name_with_extension(name, "ogg"), forced);
        let by_name = probe_for_extension(ext);
        assert_eq!(probe_by_extension(path).codec_name, by_name.codec_name, "{path:?}");
        assert_eq!(probe_for_name(name).codec_name, by_name.codec_name, "{path:?}");
    }
}

#[test]
fn slashes_separate_names() {
    assert_eq!(force_extension("a/b.c/", "ogg"), "b.ogg");
    assert_eq!(force_extension("a/./b.c/.", "ogg"), "b.ogg");
    assert_eq!(force_extension("a/..", "ogg"), "audio.ogg");
    assert_eq!(force_extension("/", "ogg"), "audio.ogg");
    assert_eq!(probe_by_extension("x.mp3/y").codec_name, "");
    assert_eq!(probe_by_extension("x/.mp3").codec_name, "");
}

#[test]
fn forcing_twice_is_forcing_once() {
    for path in ["a.b.c", "", "..", ".x", "d/e"] {
        let once = force_extension(path, "ogg");
        assert_eq!(force_extension(&once, "ogg"), once);
        assert_eq!(extension(&once), "ogg");
    }
}

#[test]
fn oversized_sources_are_refused() {
    assert!(check_source_size("x", MAX_SOURCE_BYTES).is_ok());
    assert_eq!(
        check_source_size("/tmp/big.bin", MAX_SOURCE_BYTES + 1),
        Err("audio normalize: source '/tmp/big.bin' is 67108865 bytes, exceeds cap of 67108864 bytes"
            .to_string())
    );
}

const REPORT: &str = r#"{
    "streams": [{
        "codec_type": "audio", "codec_name": "aac", "sample_rate": "44100", "channels": 2
    }],
    "format": { "format_name": "mov,mp4,m4a", "duration": "12.500000" }
}"#;

#[test]
fn reports_are_read() {
    let r = read_probe_output(true, "exit status: 0", "", REPORT.as_bytes()).unwrap();
    assert_eq!(r.codec_name, "aac");
    assert_eq!(r.container_name, "mov");
    assert_eq!(r.sample_rate, 44_100);
    assert_eq!(r.channels, 2);
    assert_eq!(r.duration.as_deref(), Some("12.500000"));
    let p = r.with_duration(13);
    assert_eq!(p.duration_seconds, 13);
    assert_eq!(p.codec_name, "aac");
    assert_eq!(p.clone().container_name, "mov");
}

fn reading(report: &str) -> Result<librefang::audio_normalizer::ProbeReport, String> {
    match read_report(&parse_text(report).unwrap()) {
        Ok(r) => Ok(r),
        Err(e) => Err(e.message()),
    }
}

#[test]
fn what_a_report_leaves_out_is_empty_or_zero() {
    let r = reading(r#"{"streams":[{"codec_type":"audio"}]}"#).unwrap();
    assert_eq!(r.codec_name, "");
    assert_eq!(r.container_name, "");
    assert_eq!(r.sample_rate, 0);
    assert_eq!(r.channels, 0);
    assert!(r.duration.is_none());
    let r = reading(
        r#"{"streams":[{"codec_type":"audio","sample_rate":44100,"channels":"2","codec_name":7}],
            "format":{"format_name":"","duration":3}}"#,
    )
    .unwrap();
    assert_eq!(r.codec_name, "");
    assert_eq!(r.container_name, "");
    assert_eq!(r.sample_rate, 0);
    assert_eq!(r.channels, 0);
    assert!(r.duration.is_none());
}

#[test]
fn numbers_in_a_report_have_limits() {
    let rate = |t: &str| {
        let report =
            format!(r#"{{"streams":[{{"codec_type":"audio","sample_rate":"{t}"}}]}}"#);
        reading(&report).unwrap().sample_rate
    };
    for t in ["48000", "+8000", "007", "4294967295", "4294967296", "-1", "1.5", "", "+", " 1"] {
        assert_eq!(rate(t), t.parse::<u32>().unwrap_or(0), "{t:?}");
    }
    let channels = |t: &str| {
        let report = format!(r#"{{"streams":[{{"codec_type":"audio","channels":{t}}}]}}"#);
        reading(&report).unwrap().channels
    };
    assert_eq!(channels("1"), 1);
    assert_eq!(channels("4294967298"), 2);
    assert_eq!(channels("-1"), 0);
    assert_eq!(channels("1.5"), 0);
    assert_eq!(channels("null"), 0);
}

#[test]
fn sources_without_audio_are_refused() {
    for report in [
        "{}",
        "[]",
        r#"{"streams":[]}"#,
        r#"{"streams":{}}"#,
        r#"{"streams":[{"codec_type":"video"}]}"#,
        r#"{"streams":[{"codec_type":7}]}"#,
    ] {
        assert_eq!(reading(report).unwrap_err(), "source has no audio stream");
    }
    let mixed = r#"{"streams":[{"codec_type":"video","codec_name":"h264"},{"codec_type":"audio"}]}"#;
    assert_eq!(reading(mixed).unwrap().codec_name, "h264");
}

#[test]
fn probe_failures_have_words() {
    let e = read_probe_output(false, "exit status: 1", " bad file\n", b"").unwrap_err();
    assert_eq!(e.message(), "ffprobe exit exit status: 1: bad file");
    let e = read_probe_output(true, "exit status: 0", "", b"nope").unwrap_err();
    assert!(e.message().starts_with("ffprobe json parse: expected"), "{}", e.message());
    assert_eq!(ProbeError::Spawn("no such file".to_string()).message(), "spawn: no such file");
}

#[test]
fn the_extension_stands_in_for_a_missing_ffprobe() {
    let missing = Err(ProbeError::Spawn("not found".to_string()));
    assert_eq!(probe_audio(missing, "mp3").unwrap().codec_name, "mp3");
    assert_eq!(
        probe_audio(Err(ProbeError::NoAudioStream), "mp3").unwrap_err(),
        "source has no audio stream"
    );
    let bad = ProbeError::Exit { status: "1".to_string(), stderr: "x".to_string() };
    assert_eq!(probe_audio(Err(bad), "mp3").unwrap_err(), "ffprobe exit 1: x");
    let known = probe_audio(Ok(probe("ogg", "opus", 1, 3)), "mp3").unwrap();
    assert_eq!(known.codec_name, "opus");
}

#[test]
fn whatsapp_always_gets_voice_notes() {
    let wav = probe("wav", "pcm_s16le", 1, 2);
    for mode in [DeliveryMode::Auto, DeliveryMode::VoiceNote, DeliveryMode::MusicFile] {
        let plan = plan_normalization("whatsapp", &asked(mode), &wav, Some("tone.wav"));
        assert_eq!(
            plan.transcode,
            Transcode::Opus { sample_rate: 16_000, bitrate_bps: 32_000 }
        );
        assert_eq!(plan.mime_type, "audio/ogg; codecs=opus");
        assert_eq!(plan.filename, "tone.ogg");
        assert!(plan.is_voice_note);
        assert!(plan.waveform);
        assert_eq!(plan.profile, ChannelProfile::WhatsApp);
        assert_eq!(plan.duration_seconds, 2);
    }
    let opus = probe("ogg", "opus", 1, 300);
    let plan = plan_normalization("wa", &asked(DeliveryMode::Auto), &opus, Some("n.oga"));
    assert_eq!(plan.transcode, Transcode::Keep);
    assert_eq!(plan.filename, "n.ogg");
    assert!(plan.is_voice_note);
}

#[test]
fn telegram_splits_voice_and_music() {
    let short = probe("wav", "pcm_s16le", 1, 60);
    let plan = plan_normalization("tg", &asked(DeliveryMode::Auto), &short, Some("a.wav"));
    assert_eq!(plan.transcode, Transcode::Opus { sample_rate: 48_000, bitrate_bps: 64_000 });
    assert!(plan.is_voice_note);
    assert!(!plan.waveform);

    let plan = plan_normalization("tg", &asked(DeliveryMode::VoiceNote), &short, Some("a.wav"));
    assert_eq!(plan.transcode, Transcode::Opus { sample_rate: 16_000, bitrate_bps: 64_000 });

    let long = probe("wav", "pcm_s16le", 1, 61);
    let plan = plan_normalization("tg", &asked(DeliveryMode::Auto), &long, Some("a.wav"));
    assert_eq!(plan.transcode, Transcode::Mp3);
    assert_eq!(plan.mime_type, "audio/mpeg");
    assert_eq!(plan.filename, "a.mp3");
    assert!(!plan.is_voice_note);

    let song = probe("mp3", "mp3", 2, 180);
    let plan = plan_normalization("tg", &asked(DeliveryMode::Auto), &song, Some("a.mp3"));
    assert_eq!(plan.transcode, Transcode::Keep);
    assert_eq!(plan.filename, "a.mp3");
    assert!(!plan.is_voice_note);
    let plan = plan_normalization("tg", &asked(DeliveryMode::VoiceNote), &song, Some("a.mp3"));
    assert!(plan.is_voice_note);
    let plan = plan_normalization("tg", &asked(DeliveryMode::MusicFile), &short, Some("a.wav"));
    assert!(!plan.is_voice_note);
}

#[test]
fn signal_passes_files_through() {
    let song = probe("x", "vorbis", 2, 180);
    let plan = plan_normalization("signal", &asked(DeliveryMode::Auto), &song, Some("a.oga"));
    assert_eq!(plan.transcode, Transcode::Keep);
    assert_eq!(plan.mime_type, "audio/ogg");
    assert_eq!(plan.filename, "a.oga");
    assert!(!plan.is_voice_note);
    let note = probe("ogg", "opus", 1, 5);
    let plan = plan_normalization("signal", &asked(DeliveryMode::Auto), &note, Some("a.oga"));
    assert_eq!(plan.transcode, Transcode::Keep);
    assert_eq!(plan.filename, "a.ogg");
    assert!(plan.is_voice_note);
}

#[test]
fn other_channels_pass_files_through() {
    let wav = probe("wav", "pcm_s16le", 1, 2);
    for channel in ["slack", "discord", "mastodon"] {
        for mode in [DeliveryMode::Auto, DeliveryMode::VoiceNote, DeliveryMode::MusicFile] {
            let plan = plan_normalization(channel, &asked(mode), &wav, Some("blob.wav"));
            assert_eq!(plan.transcode, Transcode::Keep);
            assert_eq!(plan.mime_type, "audio/wav");
            assert_eq!(plan.filename, "blob.wav");
            assert_eq!(plan.is_voice_note, mode == DeliveryMode::VoiceNote);
            let out = plan.finish(vec![1, 2, 3], Some(vec![9; 64]));
            assert_eq!(out.data, [1, 2, 3]);
            assert!(!out.transcoded);
            assert!(out.waveform.is_none());
        }
    }
}

#[test]
fn a_name_that_is_asked_for_comes_first() {
    let s = |t: &str| t.to_string();
    let named = |filename: Option<&str>, caption: Option<&str>| NormalizeOptions {
        delivery: DeliveryMode::Auto,
        caption: caption.map(s),
        filename: filename.map(s),
    };
    assert_eq!(choose_filename(&named(Some("a"), Some("c")), Some("b")), "a");
    assert_eq!(choose_filename(&named(None, Some("c")), Some("b")), "b");
    assert_eq!(choose_filename(&named(None, Some("c")), None), "c");
    assert_eq!(choose_filename(&named(None, None), None), "audio");
    let opts = NormalizeOptions { filename: Some(s("dir/nice.flac")), ..Default::default() };
    let plan = plan_normalization("wa", &opts, &probe("x", "flac", 2, 1), Some("b.flac"));
    assert_eq!(plan.filename, "nice.ogg");
}

#[test]
fn a_finished_file_follows_its_plan() {
    let wav = probe("wav", "pcm_s16le", 1, 2);
    let plan = plan_normalization("wa", &asked(DeliveryMode::Auto), &wav, Some("a.wav"));
    let out = plan.finish(vec![7], Some(vec![3; 64]));
    assert_eq!(out.data, [7]);
    assert_eq!(out.mime_type, "audio/ogg; codecs=opus");
    assert_eq!(out.filename, "a.ogg");
    assert_eq!(out.duration_seconds, 2);
    assert!(out.is_voice_note);
    assert_eq!(out.profile, ChannelProfile::WhatsApp);
    assert!(out.transcoded);
    assert_eq!(out.waveform, Some(vec![3; 64]));
    assert_eq!(out.clone().filename, "a.ogg");
}

#[test]
fn arguments_of_the_tools() {
    assert_eq!(ffmpeg_args().join(" "), "-hide_banner -loglevel error -y -i");
    assert_eq!(
        ffprobe_args().join(" "),
        "-hide_banner -loglevel error -of json -show_streams -show_format -select_streams a:0"
    );
    assert_eq!(
        waveform_args().join(" "),
        "-hide_banner -loglevel error -f ogg -i pipe:0 -vn -ac 1 -ar 8000 -f s16le pipe:1"
    );
    let opus = Transcode::Opus { sample_rate: 16_000, bitrate_bps: 32_000 };
    assert_eq!(
        opus.codec_args().join(" "),
        "-vn -ac 1 -ar 16000 -c:a libopus -b:a 32k -f ogg"
    );
    assert_eq!(opus.target_extension(), Some("ogg"));
    assert_eq!(
        Transcode::Mp3.codec_args().join(" "),
        "-vn -c:a libmp3lame -b:a 128k -f mp3"
    );
    assert_eq!(Transcode::Mp3.target_extension(), Some("mp3"));
    assert!(Transcode::Keep.codec_args().is_empty());
    assert_eq!(Transcode::Keep.target_extension(), None);
    assert_eq!(SCRATCH_DIR, "librefang_audio_norm");
    assert_eq!(opus.scratch_name("id").as_deref(), Some("id.ogg"));
    assert_eq!(Transcode::Mp3.scratch_name("id").as_deref(), Some("id.mp3"));
    assert_eq!(Transcode::Keep.scratch_name("id"), None);
}

#[test]
fn failed_transcodes_are_refused() {
    assert!(check_transcode(true, "exit status: 0", "warning").is_ok());
    assert_eq!(
        check_transcode(false, "exit status: 1", "\n no codec \n"),
        Err("ffmpeg exited with exit status: 1: no codec".to_string())
    );
    assert!(check_output(&vec![0]).is_ok());
    assert_eq!(check_output(&vec![]), Err("ffmpeg produced an empty output".to_string()));
}

fn pcm(samples: &[i16]) -> Vec<u8> {
    samples.iter().flat_map(|s| s.to_le_bytes()).collect()
}

#[test]
fn waveforms_need_a_sample() {
    assert!(waveform_windows(&[]).is_none());
    assert!(waveform_windows(&[1]).is_none());
    assert!(waveform_windows(&[1, 0]).is_some());
}

#[test]
fn voice_notes_that_say_nothing_have_no_waveform() {
    assert!(voice_waveform(&[], Some(&[1, 0])).is_none());
    assert!(voice_waveform(&[1], None).is_none());
    assert!(voice_waveform(&[1], Some(&[7])).is_none());
    assert_eq!(voice_waveform(&[1], Some(&[3, 0])).unwrap()[0].energy, 9);
}

#[test]
fn windows_sum_squares() {
    let samples: Vec<i16> = (0..200).map(|i| if i % 2 == 0 { i } else { -i }).collect();
    let windows = waveform_windows(&pcm(&samples)).unwrap();
    assert_eq!(windows.len(), WAVEFORM_SAMPLES);
    for (i, w) in windows.iter().enumerate() {
        let part = if i == 63 { &samples[189..] } else { &samples[i * 3..i * 3 + 3] };
        let sum: u128 = part.iter().map(|s| (i64::from(*s) * i64::from(*s)) as u128).sum();
        assert_eq!(w.energy, sum, "window {i}");
        assert_eq!(w.count, part.len(), "window {i}");
    }
    assert_eq!(windows.iter().map(|w| w.count).sum::<usize>(), 200);
}

#[test]
fn few_samples_leave_windows_empty() {
    let windows = waveform_windows(&pcm(&[i16::MIN, i16::MAX, -1])).unwrap();
    assert_eq!(windows[0].energy, 1_073_741_824);
    assert_eq!(windows[1].energy, 1_073_676_289);
    assert_eq!(windows[2].energy, 1);
    assert!(windows[3..].iter().all(|w| w.energy == 0 && w.count == 0));
    let mut odd = pcm(&[5]);
    odd.push(0xff);
    assert_eq!(waveform_windows(&odd).unwrap()[0].energy, 25);
}

#[test]
fn windows_share_the_samples_out() {
    for n in [1usize, 2, 63, 64, 65, 127, 128, 129, 1000] {
        let windows = waveform_windows(&vec![0; 2 * n]).unwrap();
        assert_eq!(windows.iter().map(|w| w.count).sum::<usize>(), n);
    }
}

#[test]
fn bars_stay_between_floor_and_top() {
    let bars = waveform_bars(&vec![0, 2, 3, 4, 99, 100, 101, -7]);
    assert_eq!(bars, [3, 3, 3, 4, 99, 100, 100, 3]);
    assert_eq!(WAVEFORM_FLOOR, 3);
}

fn job(channel: &str) -> NormalizeJob {
    NormalizeJob::new(channel, &NormalizeOptions::default(), "/s/tone.wav", "wav", Some("tone.wav"))
}

#[test]
fn a_normalisation_goes_step_by_step() {
    let job = job("whatsapp");
    let state = Normalization::Unmeasured;
    assert_eq!(state.action(), NormalizeAction::Measure);
    let state = state.step(&job, NormalizeEvent::Size(MAX_SOURCE_BYTES)).unwrap();
    assert_eq!(state.action(), NormalizeAction::Probe);
    let found = probe("wav", "pcm_s16le", 1, 2);
    let state = state.step(&job, NormalizeEvent::Probed(Ok(found))).unwrap();
    assert_eq!(
        state.action(),
        NormalizeAction::Transcode(Transcode::Opus { sample_rate: 16_000, bitrate_bps: 32_000 })
    );
    let state = state.step(&job, NormalizeEvent::Bytes(vec![7])).unwrap();
    assert_eq!(state.action(), NormalizeAction::MeasureWaveform);
    let state = state.step(&job, NormalizeEvent::Waveform(Some(vec![3; 64]))).unwrap();
    assert_eq!(state.action(), NormalizeAction::Deliver);
    match state {
        Normalization::Finished(audio) => {
            assert_eq!(audio.data, [7]);
            assert_eq!(audio.filename, "tone.ogg");
            assert!(audio.transcoded);
            assert_eq!(audio.waveform, Some(vec![3; 64]));
        }
        other => panic!("{other:?}"),
    }
}

#[test]
fn a_file_that_passes_through_is_read_and_has_no_waveform() {
    let job = job("mastodon");
    let state = Normalization::Measured;
    let missing = Err(ProbeError::Spawn("not found".to_string()));
    let state = state.step(&job, NormalizeEvent::Probed(missing)).unwrap();
    assert_eq!(state.action(), NormalizeAction::Read);
    let state = state.step(&job, NormalizeEvent::Bytes(vec![])).unwrap();
    match state {
        Normalization::Finished(audio) => {
            assert_eq!(audio.mime_type, "audio/wav");
            assert_eq!(audio.filename, "tone.wav");
            assert!(!audio.transcoded);
            assert!(audio.data.is_empty());
        }
        other => panic!("{other:?}"),
    }
}

#[test]
fn sources_are_refused_at_their_step() {
    let job = job("wa");
    let e = Normalization::Unmeasured.step(&job, NormalizeEvent::Size(MAX_SOURCE_BYTES + 1));
    assert_eq!(
        e.unwrap_err(),
        "audio normalize: source '/s/tone.wav' is 67108865 bytes, exceeds cap of 67108864 bytes"
    );
    let found = Err(ProbeError::NoAudioStream);
    let e = Normalization::Measured.step(&job, NormalizeEvent::Probed(found));
    assert_eq!(e.unwrap_err(), "source has no audio stream");
    let wav = probe("wav", "pcm_s16le", 1, 2);
    let plan = plan_for_name(
        ChannelProfile::WhatsApp,
        DeliveryMode::Auto,
        &wav,
        "d/tone.wav",
        Some("tone.wav"),
    );
    assert_eq!(plan.filename, "tone.ogg");
    let e = Normalization::Planned(plan).step(&job, NormalizeEvent::Bytes(vec![]));
    assert_eq!(e.unwrap_err(), "ffmpeg produced an empty output");
}
