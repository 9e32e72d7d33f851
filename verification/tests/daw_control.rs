use convert_case::Case;
use convert_case::Casing;
use oscar::daw_control::ControlError;
use oscar::daw_control::DawControlMessage;
use oscar::daw_control::DawState;
use oscar::daw_control::PlaybackControl;
use oscar::daw_control::TrackControl;
use oscar::osc::OscArg;
use oscar::osc::OscMessage;

fn bits(v: f32) -> u32 {
    v.to_bits()
}

fn msg(addr: &str, args: Vec<OscArg>) -> OscMessage {
    OscMessage { addr: addr.to_string(), args }
}

fn snake_track_names() -> Vec<String> {
    ["none", "volume", "pan", "mute", "solo", "record_arm", "custom"]
        .iter()
        .map(|s| s.to_string())
        .collect()
}

#[test]
fn track_control_volume_keeps_value() {
    let m = DawControlMessage::track_control(3, "volume", bits(-6.5)).unwrap();
    assert_eq!(m, DawControlMessage::TrackControl(3, TrackControl::Volume(bits(-6.5))));
}

#[test]
fn track_control_pan_keeps_value() {
    let m = DawControlMessage::track_control(1, "pan", bits(0.25)).unwrap();
    assert_eq!(m, DawControlMessage::TrackControl(1, TrackControl::Pan(bits(0.25))));
}

#[test]
fn track_control_flags_follow_nonzero() {
    assert_eq!(
        DawControlMessage::track_control(2, "mute", bits(1.0)).unwrap(),
        DawControlMessage::TrackControl(2, TrackControl::Mute(true))
    );
    assert_eq!(
        DawControlMessage::track_control(2, "mute", bits(0.0)).unwrap(),
        DawControlMessage::TrackControl(2, TrackControl::Mute(false))
    );
    assert_eq!(
        DawControlMessage::track_control(2, "solo", bits(-0.0)).unwrap(),
        DawControlMessage::TrackControl(2, TrackControl::Solo(false))
    );
    assert_eq!(
        DawControlMessage::track_control(2, "solo", bits(f32::NAN)).unwrap(),
        DawControlMessage::TrackControl(2, TrackControl::Solo(true))
    );
    assert_eq!(
        DawControlMessage::track_control(8, "record_arm", bits(0.5)).unwrap(),
        DawControlMessage::TrackControl(8, TrackControl::RecordArm(true))
    );
}

#[test]
fn track_control_rejects_unsupported_and_unknown_types() {
    assert_eq!(
        DawControlMessage::track_control(1, "none", 0),
        Err(ControlError::UnsupportedTrackControlType("none".to_string()))
    );
    assert_eq!(
        DawControlMessage::track_control(1, "custom", 0),
        Err(ControlError::UnsupportedTrackControlType("custom".to_string()))
    );
    assert_eq!(
        DawControlMessage::track_control(1, "Volume", 0),
        Err(ControlError::InvalidTrackControlType("Volume".to_string()))
    );
    assert_eq!(
        DawControlMessage::track_control(1, "", 0),
        Err(ControlError::InvalidTrackControlType("".to_string()))
    );
}

#[test]
fn track_control_named_uses_first_match() {
    let mut names = snake_track_names();
    names[2] = "volume".to_string();
    let m = DawControlMessage::track_control_named(&names, 4, "volume", 7).unwrap();
    assert_eq!(m, DawControlMessage::TrackControl(4, TrackControl::Volume(7)));
    let m = DawControlMessage::track_control_named(&snake_track_names(), 4, "pan", 7).unwrap();
    assert_eq!(m, DawControlMessage::TrackControl(4, TrackControl::Pan(7)));
}

#[test]
fn playback_control_by_name() {
    assert_eq!(
        DawControlMessage::playback_control("play").unwrap(),
        DawControlMessage::PlaybackControl(PlaybackControl::Play)
    );
    assert_eq!(
        DawControlMessage::playback_control("fast_forward").unwrap(),
        DawControlMessage::PlaybackControl(PlaybackControl::FastForward)
    );
    assert_eq!(
        DawControlMessage::playback_control("jump_to_previous_marker").unwrap(),
        DawControlMessage::PlaybackControl(PlaybackControl::JumpToPreviousMarker)
    );
    assert_eq!(
        DawControlMessage::playback_control("jump_forward_bars").unwrap(),
        DawControlMessage::PlaybackControl(PlaybackControl::JumpForwardBars(0))
    );
    assert_eq!(
        DawControlMessage::playback_control("jump_backward_bars").unwrap(),
        DawControlMessage::PlaybackControl(PlaybackControl::JumpBackwardBars(0))
    );
    assert_eq!(
        DawControlMessage::playback_control("none").unwrap(),
        DawControlMessage::PlaybackControl(PlaybackControl::Nothing)
    );
    assert_eq!(
        DawControlMessage::playback_control("warp"),
        Err(ControlError::InvalidPlaybackControlType("warp".to_string()))
    );
}

#[test]
fn control_error_messages() {
    assert_eq!(
        ControlError::InvalidTrackControlType("x".to_string()).message(),
        "Invalid track control type: x"
    );
    assert_eq!(
        ControlError::UnsupportedTrackControlType("none".to_string()).message(),
        "Unsupported track control type: none"
    );
    assert_eq!(
        ControlError::InvalidPlaybackControlType("y".to_string()).message(),
        "Invalid playback control type: y"
    );
}

#[test]
fn defaults_are_empty_requests() {
    assert_eq!(TrackControl::default(), TrackControl::Nothing);
    assert_eq!(PlaybackControl::default(), PlaybackControl::Nothing);
    assert_eq!(DawControlMessage::default(), DawControlMessage::Nothing);
}

#[test]
fn to_osc_track_controls() {
    let m = DawControlMessage::TrackControl(3, TrackControl::Volume(bits(-3.0))).to_osc();
    assert_eq!(m, msg("/track/3/volume/db", vec![OscArg::Float(bits(-3.0))]));
    let m = DawControlMessage::TrackControl(12, TrackControl::Pan(bits(0.5))).to_osc();
    assert_eq!(m, msg("/track/12/pan", vec![OscArg::Float(bits(0.5))]));
    let m = DawControlMessage::TrackControl(1, TrackControl::Mute(true)).to_osc();
    assert_eq!(m, msg("/track/1/mute", vec![OscArg::Int(1)]));
    let m = DawControlMessage::TrackControl(1, TrackControl::Solo(false)).to_osc();
    assert_eq!(m, msg("/track/1/solo", vec![OscArg::Int(0)]));
    let m = DawControlMessage::TrackControl(105, TrackControl::RecordArm(true)).to_osc();
    assert_eq!(m, msg("/track/105/record_arm", vec![OscArg::Int(1)]));
    let m = DawControlMessage::TrackControl(5, TrackControl::Nothing).to_osc();
    assert_eq!(m, msg("/track/5/", vec![]));
    let m = DawControlMessage::TrackControl(0, TrackControl::Custom("x".to_string(), vec![OscArg::Nil]))
        .to_osc();
    assert_eq!(m, msg("/track/0/", vec![]));
}

#[test]
fn to_osc_playback_and_custom() {
    assert_eq!(DawControlMessage::PlaybackControl(PlaybackControl::Play).to_osc(), msg("/play", vec![]));
    assert_eq!(DawControlMessage::PlaybackControl(PlaybackControl::Stop).to_osc(), msg("/stop", vec![]));
    assert_eq!(DawControlMessage::PlaybackControl(PlaybackControl::Pause).to_osc(), msg("", vec![]));
    assert_eq!(DawControlMessage::Nothing.to_osc(), msg("", vec![]));
    let args = vec![
        OscArg::String("a".to_string()),
        OscArg::Blob(vec![1, 2, 3]),
        OscArg::Array(vec![OscArg::Long(-9), OscArg::Array(vec![OscArg::Nil])]),
    ];
    let m = DawControlMessage::Custom("/action/40044".to_string(), args.clone()).to_osc();
    assert_eq!(m, msg("/action/40044", args));
}

#[test]
fn update_track_fields() {
    let mut s = DawState::default();
    s.update_from_osc_message(msg("/track/2/volume/db", vec![OscArg::Float(bits(-12.0))]));
    s.update_from_osc_message(msg("/track/2/name", vec![OscArg::String("Bass".to_string())]));
    s.update_from_osc_message(msg("/track/2/vu", vec![OscArg::Float(bits(0.7))]));
    s.update_from_osc_message(msg("/track/2/vu/L", vec![OscArg::Float(bits(0.6))]));
    s.update_from_osc_message(msg("/track/2/vu/R", vec![OscArg::Float(bits(0.8))]));
    s.update_from_osc_message(msg("/track/2/pan", vec![OscArg::Float(bits(-1.0))]));
    s.update_from_osc_message(msg("/track/2/mute", vec![OscArg::Float(bits(1.0))]));
    s.update_from_osc_message(msg("/track/2/solo", vec![OscArg::Float(bits(1.0))]));
    s.update_from_osc_message(msg("/track/2/recarm", vec![OscArg::Float(bits(1.0))]));
    let t = &s.tracks[1];
    assert_eq!(t.volume, bits(-12.0));
    assert_eq!(t.name, "Bass");
    assert_eq!(t.vu_lr, bits(0.7));
    assert_eq!(t.vu_l, bits(0.6));
    assert_eq!(t.vu_r, bits(0.8));
    assert_eq!(t.pan, bits(-1.0));
    assert!(t.mute && t.solo && t.record_armed);
    assert_eq!(s.tracks[0], DawState::default().tracks[0]);
    s.update_from_osc_message(msg("/track/2/mute", vec![OscArg::Float(bits(0.0))]));
    assert!(!s.tracks[1].mute);
}

#[test]
fn update_master_and_transport() {
    let mut s = DawState::default();
    s.update_from_osc_message(msg("/master/name", vec![OscArg::String("Master".to_string())]));
    assert_eq!(s.master_track.name, "Master");
    s.update_from_osc_message(msg("/master/volume/db", vec![OscArg::Float(bits(1.5))]));
    assert_eq!(s.master_track.volume, bits(1.5));
    s.update_from_osc_message(msg("/beat/str", vec![OscArg::String("3.2.00".to_string())]));
    s.update_from_osc_message(msg("/time/str", vec![OscArg::String("0:01.500".to_string())]));
    s.update_from_osc_message(msg("/time", vec![OscArg::Float(bits(1.5))]));
    assert_eq!(s.play_state.beats_str, "3.2.00");
    assert_eq!(s.play_state.time_str, "0:01.500");
    assert_eq!(s.play_state.time_seconds, bits(1.5));
    s.update_from_osc_message(msg("/play", vec![]));
    assert!(s.play_state.is_playing);
    s.update_from_osc_message(msg("/stop", vec![OscArg::Int(1)]));
    assert!(!s.play_state.is_playing);
}

#[test]
fn update_ignores_what_it_does_not_handle() {
    let base = DawState::default();
    let cases = vec![
        msg("/track/9/pan", vec![OscArg::Float(bits(0.5))]),
        msg("/track/0/pan", vec![OscArg::Float(bits(0.5))]),
        msg("/track/-1/pan", vec![OscArg::Float(bits(0.5))]),
        msg("/track/x/pan", vec![OscArg::Float(bits(0.5))]),
        msg("/track", vec![OscArg::Float(bits(0.5))]),
        msg("/track/1/pan", vec![OscArg::Int(1)]),
        msg("/track/1/pan", vec![]),
        msg("/track/1/name", vec![OscArg::Float(1)]),
        msg("/track/1/fx/1/name", vec![OscArg::String("Reverb".to_string())]),
        msg("/lastmarker/name", vec![OscArg::String("Chorus".to_string())]),
        msg("/time", vec![OscArg::String("1".to_string())]),
        msg("/play/now", vec![]),
        msg("", vec![]),
    ];
    for m in cases {
        let mut s = base.clone();
        s.update_from_osc_message(m);
        assert_eq!(s, base);
    }
}

#[test]
fn update_reads_paths_like_split_and_parse() {
    let mut s = DawState::default();
    s.update_from_osc_message(msg("//track//+3///mute/", vec![OscArg::Float(bits(2.0))]));
    assert!(s.tracks[2].mute);
    s.update_from_osc_message(msg("/track/08/solo", vec![OscArg::Float(bits(2.0))]));
    assert!(s.tracks[7].solo);
}

#[test]
fn update_is_idempotent_on_a_message() {
    let m = msg("/track/4/vu", vec![OscArg::Float(bits(0.3))]);
    let mut once = DawState::default();
    once.update_from_osc_message(m.clone());
    let mut twice = once.clone();
    twice.update_from_osc_message(m);
    assert_eq!(once, twice);
}

#[test]
fn echoed_volume_and_pan_reach_the_mirror() {
    for n in 1..=8usize {
        let mut s = DawState::default();
        let out = DawControlMessage::TrackControl(n, TrackControl::Volume(bits(-4.0))).to_osc();
        s.update_from_osc_message(out);
        let out = DawControlMessage::TrackControl(n, TrackControl::Pan(bits(0.1))).to_osc();
        s.update_from_osc_message(out);
        assert_eq!(s.tracks[n - 1].volume, bits(-4.0));
        assert_eq!(s.tracks[n - 1].pan, bits(0.1));
    }
}

#[test]
fn echoed_flags_do_not_reach_the_mirror() {
    let mut s = DawState::default();
    s.update_from_osc_message(DawControlMessage::TrackControl(1, TrackControl::Mute(true)).to_osc());
    s.update_from_osc_message(
        DawControlMessage::TrackControl(1, TrackControl::RecordArm(true)).to_osc(),
    );
    assert!(!s.tracks[0].mute);
    assert!(!s.tracks[0].record_armed);
}

#[test]
fn default_state_has_eight_empty_tracks() {
    let s = DawState::default();
    assert_eq!(s.tracks.len(), 8);
    assert!(!s.play_state.is_playing);
    assert_eq!(s.master_track.name, "");
    assert_eq!(s.master_track.fx.len(), 0);
}

#[test]
fn playback_control_named_picks_by_position() {
    let names: Vec<String> = [
        "none", "play", "stop", "pause", "record", "rewind", "fast_forward",
        "jump_to_previous_marker", "jump_to_next_marker", "jump_to_start", "jump_to_end",
        "jump_forward_bars", "jump_backward_bars",
    ]
    .iter()
    .map(|s| s.to_string())
    .collect();
    assert_eq!(
        DawControlMessage::playback_control_named(&names, "rewind").unwrap(),
        DawControlMessage::PlaybackControl(PlaybackControl::Rewind)
    );
    assert_eq!(
        DawControlMessage::playback_control_named(&names, "jump_to_end").unwrap(),
        DawControlMessage::PlaybackControl(PlaybackControl::JumpToEnd)
    );
    assert_eq!(
        DawControlMessage::playback_control_named(&names, "Rewind"),
        Err(ControlError::InvalidPlaybackControlType("Rewind".to_string()))
    );
}

#[test]
fn print_variants() {
    TrackControl::variant_names().iter().for_each(|variant| {
        let conv = variant.to_case(Case::Snake);
        println!("Variant: {} -> {}", variant, conv);
    });
}

#[test]
fn print_playback_variants() {
    PlaybackControl::variant_names().iter().for_each(|variant| {
        let conv = variant.to_case(Case::Snake);
        println!("Variant: {} -> {}", variant, conv);
    });
}

#[test]
fn variant_names_in_declaration_order() {
    assert_eq!(
        TrackControl::variant_names(),
        vec!["None", "Volume", "Pan", "Mute", "Solo", "RecordArm", "Custom"]
    );
    let names = PlaybackControl::variant_names();
    assert_eq!(names.len(), 13);
    assert_eq!(names[0], "None");
    assert_eq!(names[7], "JumpToPreviousMarker");
    assert_eq!(names[12], "JumpBackwardBars");
}

#[test]
fn track_message_keeps_transport_and_master() {
    let mut s = DawState::default();
    s.update_from_osc_message(msg("/play", vec![]));
    s.update_from_osc_message(msg("/master/name", vec![OscArg::String("M".to_string())]));
    let before = s.clone();
    s.update_from_osc_message(msg("/track/5/name", vec![OscArg::String("Keys".to_string())]));
    assert_eq!(s.play_state, before.play_state);
    assert_eq!(s.master_track, before.master_track);
    for i in 0..8 {
        if i != 4 {
            assert_eq!(s.tracks[i], before.tracks[i]);
        }
    }
    assert_eq!(s.tracks[4].name, "Keys");
}

#[test]
fn same_segments_act_alike() {
    let mut a = DawState::default();
    let mut b = DawState::default();
    a.update_from_osc_message(msg("/track/2/pan", vec![OscArg::Float(bits(0.3))]));
    b.update_from_osc_message(msg("track//2/pan/", vec![OscArg::Float(bits(0.3))]));
    assert_eq!(a, b);
}

#[test]
fn effects_are_never_touched() {
    let mut s = DawState::default();
    s.tracks[0].fx.push(oscar::daw_control::FxState {
        name: "EQ".to_string(),
        preset: "flat".to_string(),
        bypassed: true,
    });
    s.tracks[0].fx_bypassed = true;
    let before = s.clone();
    s.update_from_osc_message(msg("/track/1/fx/1/bypass", vec![OscArg::Float(bits(0.0))]));
    s.update_from_osc_message(msg("/track/1/name", vec![OscArg::String("Vox".to_string())]));
    assert_eq!(s.tracks[0].fx, before.tracks[0].fx);
    assert!(s.tracks[0].fx_bypassed);
}
