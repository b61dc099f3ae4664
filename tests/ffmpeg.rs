use mdu::ffmpeg::{
    exit_outcome, find_preset, keep_streaming, probe_duration, task_args, CodecId, EncoderPreset,
    FFmpeg, FFmpegError, SendOutcome, VideoCodec,
};
use mdu::postprocess::{AudioFormat, ProcessingTask, ProcessingType};

fn engine() -> FFmpeg {
    FFmpeg::new(Some("/usr/bin/ffmpeg".to_string())).unwrap()
}

fn strs(v: &[&str]) -> Vec<String> {
    v.iter().map(|s| s.to_string()).collect()
}

#[test]
fn missing_executable_is_not_found() {
    assert!(matches!(FFmpeg::new(None), Err(FFmpegError::NotFound(_))));
    assert_eq!(engine().executable, "/usr/bin/ffmpeg");
}

#[test]
fn codec_tables() {
    assert_eq!(VideoCodec::X264.get_encoder_name(), "libx264");
    assert_eq!(VideoCodec::HevcAmf.get_encoder_name(), "hevc_amf");
    assert_eq!(VideoCodec::SvtAv1.get_codec_id(), CodecId::Av1);
    assert_eq!(VideoCodec::H264Nvenc.get_codec_id(), CodecId::H264);
    assert_eq!(VideoCodec::HevcNvenc.get_codec_id(), CodecId::Hevc);
    assert_eq!(
        VideoCodec::X264.get_default_options(),
        vec![("preset", "medium"), ("tune", "film"), ("crf", "23")]
    );
    assert_eq!(VideoCodec::H264Amf.get_default_options().len(), 5);
}

#[test]
fn video_arguments_put_preset_options_after_defaults() {
    let preset = EncoderPreset {
        name: "custom".to_string(),
        codec: VideoCodec::X264,
        width: Some(1280),
        height: Some(720),
        bitrate: Some(2000000),
        options: vec![("crf".to_string(), "18".to_string())],
    };
    assert_eq!(
        engine().video_args("in.mp4", "out.mp4", &preset),
        strs(&[
            "-hide_banner", "-y", "-i", "in.mp4", "-c:v", "libx264", "-preset", "medium", "-tune",
            "film", "-crf", "23", "-crf", "18", "-vf", "scale=1280:720", "-b:v", "2000000", "-c:a",
            "copy", "out.mp4",
        ])
    );
}

#[test]
fn video_arguments_without_size_or_bitrate() {
    let preset = EncoderPreset {
        name: "p".to_string(),
        codec: VideoCodec::SvtAv1,
        width: None,
        height: Some(480),
        bitrate: None,
        options: vec![],
    };
    assert_eq!(
        engine().video_args("a", "b", &preset),
        strs(&[
            "-hide_banner", "-y", "-i", "a", "-c:v", "libsvtav1", "-preset", "8", "-crf", "30",
            "-svtav1-params", "tune=0", "-vf", "scale=-1:480", "-c:a", "copy", "b",
        ])
    );
}

#[test]
fn audio_arguments() {
    let f = engine();
    assert_eq!(
        f.audio_args("in.mp4", "out.mp3", AudioFormat::Mp3, Some(2)),
        strs(&["-hide_banner", "-y", "-i", "in.mp4", "-vn", "-c:a", "libmp3lame", "-q:a", "2", "out.mp3"])
    );
    assert_eq!(
        f.audio_args("in.mp4", "out.opus", AudioFormat::Opus, None),
        strs(&["-hide_banner", "-y", "-i", "in.mp4", "-vn", "-c:a", "libopus", "out.opus"])
    );
    assert_eq!(
        f.extract_audio_args("in.mp4", "out.m4a"),
        strs(&["-hide_banner", "-y", "-i", "in.mp4", "-vn", "-c:a", "copy", "out.m4a"])
    );
    assert_eq!(
        f.audio_args("i", "o", AudioFormat::Copy, Some(-3)),
        strs(&["-hide_banner", "-y", "-i", "i", "-vn", "-c:a", "copy", "o"])
    );
}

#[test]
fn probe_and_check_arguments() {
    let f = engine();
    assert_eq!(f.probe_args("in.mkv"), strs(&["-hide_banner", "-i", "in.mkv"]));
    assert_eq!(
        f.encoder_check_args("h264_nvenc"),
        strs(&["-hide_banner", "-h", "encoder=h264_nvenc"])
    );
}

#[test]
fn available_codecs_follow_the_catalog() {
    let f = engine();
    assert_eq!(
        f.get_available_codecs(&strs(&["libx264", "hevc_nvenc", "h264_amf", "hevc_amf"])),
        vec![VideoCodec::X264, VideoCodec::H264Amf, VideoCodec::HevcAmf]
    );
    assert_eq!(
        f.get_available_codecs(&strs(&["h264_nvenc", "libsvtav1"])),
        vec![VideoCodec::SvtAv1, VideoCodec::H264Nvenc]
    );
    assert_eq!(f.get_available_codecs(&vec![]), vec![]);
}

#[test]
fn default_presets_come_in_three_tiers() {
    let presets = engine().get_default_presets(&strs(&["libx264", "h264_amf"]));
    let names: Vec<&str> = presets.iter().map(|p| p.name.as_str()).collect();
    assert_eq!(
        names,
        vec![
            "X264 High Quality", "X264 Balanced", "X264 Fast", "H264Amf High Quality",
            "H264Amf Balanced", "H264Amf Fast",
        ]
    );
    assert_eq!(
        presets[0].options,
        vec![("preset".to_string(), "slow".to_string()), ("crf".to_string(), "18".to_string())]
    );
    assert_eq!(presets[5].options[2], ("qp_p".to_string(), "30".to_string()));
    assert!(presets.iter().all(|p| p.width.is_none() && p.height.is_none() && p.bitrate.is_none()));
}

#[test]
fn tasks_become_arguments() {
    let f = engine();
    let presets = f.get_default_presets(&strs(&["libx264"]));
    let task = ProcessingTask {
        input_path: "in.mp4".to_string(),
        output_path: "out.mp4".to_string(),
        processing_type: ProcessingType::VideoConversion { preset_name: "X264 Fast".to_string() },
    };
    let args = task_args(&f, &task, &presets).unwrap();
    assert_eq!(&args[12..16], &strs(&["-preset", "veryfast", "-crf", "28"])[..]);
    let missing = ProcessingTask {
        processing_type: ProcessingType::VideoConversion { preset_name: "nope".to_string() },
        ..task.clone()
    };
    assert!(matches!(task_args(&f, &missing, &presets), Err(FFmpegError::InvalidInput(_))));
    let audio = ProcessingTask {
        processing_type: ProcessingType::AudioExtraction { format: AudioFormat::Aac, quality: None },
        ..task
    };
    assert_eq!(
        task_args(&f, &audio, &presets).unwrap(),
        strs(&["-hide_banner", "-y", "-i", "in.mp4", "-vn", "-c:a", "aac", "out.mp4"])
    );
    assert!(find_preset(&presets, "X264 Balanced").is_some());
    assert!(find_preset(&presets, "x264 balanced").is_none());
}

#[test]
fn probe_output_gives_the_duration() {
    let text = "Input #0, mov,mp4, from 'in.mp4':\n  Duration: 00:01:23.45, start: 0.000000, bitrate: 1 kb/s";
    assert_eq!(probe_duration(text).unwrap(), 8345);
    assert_eq!(probe_duration("Duration: 1:00:00.00").unwrap(), 360000);
}

#[test]
fn probe_without_duration_is_a_progress_error() {
    assert!(matches!(probe_duration("Duration: N/A, start"), Err(FFmpegError::ProgressError(_))));
    assert!(matches!(probe_duration(""), Err(FFmpegError::ProgressError(_))));
}

#[test]
fn exit_status_decides_the_result() {
    assert!(exit_outcome(true, Some(0)).is_ok());
    assert!(matches!(exit_outcome(false, Some(1)), Err(FFmpegError::ProcessFailure(Some(1)))));
    assert!(matches!(exit_outcome(false, None), Err(FFmpegError::ProcessFailure(None))));
}

#[test]
fn streaming_stops_only_when_the_receiver_is_gone() {
    assert!(keep_streaming(SendOutcome::Sent));
    assert!(keep_streaming(SendOutcome::Full));
    assert!(!keep_streaming(SendOutcome::Closed));
}
