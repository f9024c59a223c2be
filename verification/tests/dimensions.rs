use vidscale::probe::{CodecType, ConvertError, StreamMetadata};
use vidscale::resolve::{resolve, target_for_streams, TargetDimensions};
use vidscale::tier::{tier_height, Resolution};

fn video(width: Option<u32>, height: Option<u32>) -> StreamMetadata {
    StreamMetadata { codec_type: CodecType::Video, width, height }
}

fn audio() -> StreamMetadata {
    StreamMetadata { codec_type: CodecType::Audio, width: None, height: None }
}

#[test]
fn tier_heights_are_fixed() {
    assert_eq!(tier_height(Resolution::Sd), Some(480));
    assert_eq!(tier_height(Resolution::Hsd), Some(600));
    assert_eq!(tier_height(Resolution::Hd), Some(720));
    assert_eq!(tier_height(Resolution::Hdd), Some(900));
    assert_eq!(tier_height(Resolution::Same), None);
}

#[test]
fn same_tier_skips_encoding() {
    assert!(Resolution::Same.skips_encoding());
    assert!(!Resolution::Hd.skips_encoding());
}

#[test]
fn resolve_hd_1920_1080_gives_1280_720() {
    let d = resolve(1920, 1080, Resolution::Hd);
    assert_eq!(d, TargetDimensions { width: 1280, height: 720 });
}

#[test]
fn resolve_sd_1921_1081_rounds_to_853_then_evens_to_854() {
    let d = resolve(1921, 1081, Resolution::Sd);
    assert_eq!(d, TargetDimensions { width: 854, height: 480 });
}

#[test]
fn resolve_hsd_1920_1080_evens_odd_width() {
    // 1920 * 600 / 1080 rounds to 1067, which is odd and becomes 1068.
    let d = resolve(1920, 1080, Resolution::Hsd);
    assert_eq!(d, TargetDimensions { width: 1068, height: 600 });
}

#[test]
fn resolve_hdd_1920_1080_gives_1600_900() {
    let d = resolve(1920, 1080, Resolution::Hdd);
    assert_eq!(d, TargetDimensions { width: 1600, height: 900 });
}

#[test]
fn resolve_same_keeps_height_and_evens_width() {
    let d = resolve(1921, 1081, Resolution::Same);
    assert_eq!(d, TargetDimensions { width: 1922, height: 1081 });
    let d = resolve(1920, 1080, Resolution::Same);
    assert_eq!(d, TargetDimensions { width: 1920, height: 1080 });
}

#[test]
fn resolved_width_is_always_even() {
    let tiers = [
        Resolution::Sd,
        Resolution::Hsd,
        Resolution::Hd,
        Resolution::Hdd,
        Resolution::Same,
    ];
    let sources = [(1920u32, 1080u32), (1921, 1081), (640, 480), (853, 481), (1, 1), (3, 7)];
    for &tier in tiers.iter() {
        for &(w, h) in sources.iter() {
            let d = resolve(w, h, tier);
            assert_eq!(d.width % 2, 0);
        }
    }
}

#[test]
fn resolving_twice_yields_identical_output() {
    let a = resolve(1921, 1081, Resolution::Sd);
    let b = resolve(1921, 1081, Resolution::Sd);
    assert_eq!(a, b);
    let a = resolve(1280, 720, Resolution::Same);
    let b = resolve(1280, 720, Resolution::Same);
    assert_eq!(a, b);
}

#[test]
fn no_video_stream_fails_before_resolving() {
    let streams = vec![audio(), audio()];
    assert_eq!(target_for_streams(&streams, Resolution::Hd), Err(ConvertError::NoVideoStream));
    let empty: Vec<StreamMetadata> = Vec::new();
    assert_eq!(target_for_streams(&empty, Resolution::Hd), Err(ConvertError::NoVideoStream));
}

#[test]
fn first_video_stream_is_authoritative() {
    let streams = vec![audio(), video(Some(640), Some(480)), video(Some(1920), Some(1080))];
    let d = target_for_streams(&streams, Resolution::Hd).unwrap();
    assert_eq!(d, TargetDimensions { width: 960, height: 720 });
}

#[test]
fn missing_dimensions_are_rejected() {
    let streams = vec![video(None, Some(1080))];
    assert_eq!(
        target_for_streams(&streams, Resolution::Hd),
        Err(ConvertError::DimensionsUnavailable)
    );
    let streams = vec![video(Some(1920), None)];
    assert_eq!(
        target_for_streams(&streams, Resolution::Hd),
        Err(ConvertError::DimensionsUnavailable)
    );
}

#[test]
fn zero_dimensions_are_rejected() {
    let streams = vec![video(Some(0), Some(1080))];
    assert_eq!(
        target_for_streams(&streams, Resolution::Hd),
        Err(ConvertError::DimensionsUnavailable)
    );
    let streams = vec![video(Some(1920), Some(0))];
    assert_eq!(
        target_for_streams(&streams, Resolution::Hd),
        Err(ConvertError::DimensionsUnavailable)
    );
}

#[test]
fn planned_job_names_output_after_resolved_height() {
    let streams = vec![video(Some(1920), Some(1080))];
    let job = vidscale::launch::plan_conversion(&b"movie".to_vec(), &streams, Resolution::Hd)
        .unwrap();
    assert_eq!(job.dims, TargetDimensions { width: 1280, height: 720 });
    assert_eq!(job.output_name, b"movie.720p.mp4".to_vec());
}

#[test]
fn planning_without_video_stream_fails() {
    let streams = vec![audio()];
    let r = vidscale::launch::plan_conversion(&b"movie".to_vec(), &streams, Resolution::Hd);
    assert!(matches!(r, Err(ConvertError::NoVideoStream)));
}

#[test]
fn target_from_streams_matches_resolve() {
    let streams = vec![video(Some(1920), Some(1080))];
    let d = target_for_streams(&streams, Resolution::Sd).unwrap();
    assert_eq!(d, resolve(1920, 1080, Resolution::Sd));
    assert_eq!(d, TargetDimensions { width: 854, height: 480 });
}
