//! Requests to the DAW (track and playback controls), their OSC form, and
//! the mirror of the DAW's state that incoming OSC messages keep current.
use convert_case::Case;
use convert_case::Casing;
use vstd::prelude::*;
use vstd::string::StringExecFns;

use crate::osc::FloatBits;
use crate::osc::OscArg;
use crate::osc::OscArgView;
use crate::osc::OscMessage;
use crate::osc::OscMessageView;
use crate::osc::TRACK_COUNT;
use crate::osc::args_view;
use crate::osc::clone_args;
use crate::osc::float_is_nonzero;
use crate::osc::lemma_float_is_nonzero_bits;
use crate::osc::is_nonzero;
use crate::text::chars_eq_str;
use crate::text::chars_of;
use crate::text::decimal;
use crate::text::is_digit;
use crate::text::is_segment;
use crate::text::lemma_decimal_digits;
use crate::text::lemma_parse_decimal;
use crate::text::lemma_path_segments_of;
use crate::text::parse_usize;
use crate::text::parse_usize_spec;
use crate::text::path_segments;
use crate::text::push_decimal;
use crate::text::runs_view;
use crate::text::slash_path;
use crate::text::split_path;
use crate::text::str_eq;

verus! {

/// A change to one track of the DAW.
#[derive(Clone, Debug, PartialEq)]
pub enum TrackControl {
    /// No change; scripts know this variant by the name `None`.
    Nothing,
    Volume(FloatBits),
    Pan(FloatBits),
    Mute(bool),
    Solo(bool),
    RecordArm(bool),
    Custom(String, Vec<OscArg>),
}

impl Default for TrackControl {
    fn default() -> (r: Self)
        ensures
            r == TrackControl::Nothing,
    {
        TrackControl::Nothing
    }
}

/// A transport request to the DAW.
#[derive(Clone, Copy, Debug, PartialEq, Eq, Structural)]
pub enum PlaybackControl {
    /// No request; scripts know this variant by the name `None`.
    Nothing,
    Play,
    Stop,
    Pause,
    Record,
    Rewind,
    FastForward,
    JumpToPreviousMarker,
    JumpToNextMarker,
    JumpToStart,
    JumpToEnd,
    JumpForwardBars(u32),
    JumpBackwardBars(u32),
}

impl Default for PlaybackControl {
    fn default() -> (r: Self)
        ensures
            r == PlaybackControl::Nothing,
    {
        PlaybackControl::Nothing
    }
}

/// A request to the DAW. Track numbers count from 1.
#[derive(Clone, Debug, PartialEq)]
pub enum DawControlMessage {
    /// No request.
    Nothing,
    TrackControl(usize, TrackControl),
    PlaybackControl(PlaybackControl),
    Custom(String, Vec<OscArg>),
}

impl Default for DawControlMessage {
    fn default() -> (r: Self)
        ensures
            r == DawControlMessage::Nothing,
    {
        DawControlMessage::Nothing
    }
}

/// Why a control request could not be built; each variant holds the
/// control type that was asked for.
#[derive(Clone, Debug, PartialEq)]
pub enum ControlError {
    InvalidTrackControlType(String),
    UnsupportedTrackControlType(String),
    InvalidPlaybackControlType(String),
}

/// The text that describes an error.
pub open spec fn control_error_message(e: ControlError) -> Seq<char> {
    match e {
        ControlError::InvalidTrackControlType(t) => "Invalid track control type: "@ + t@,
        ControlError::UnsupportedTrackControlType(t) => "Unsupported track control type: "@ + t@,
        ControlError::InvalidPlaybackControlType(t) => "Invalid playback control type: "@ + t@,
    }
}

impl ControlError {
    /// The text that describes this error.
    pub fn message(&self) -> (r: String)
        ensures
            r@ == control_error_message(*self),
    {
        let (mut out, t) = match self {
            ControlError::InvalidTrackControlType(t) => (
                "Invalid track control type: ".to_owned(),
                t,
            ),
            ControlError::UnsupportedTrackControlType(t) => (
                "Unsupported track control type: ".to_owned(),
                t,
            ),
            ControlError::InvalidPlaybackControlType(t) => (
                "Invalid playback control type: ".to_owned(),
                t,
            ),
        };
        out.append(t.as_str());
        out
    }
}

/// What `convert_case` makes of a name in `Case::Snake`.
pub uninterp spec fn snake_case_of(name: Seq<char>) -> Seq<char>;

/// Calls `convert_case::Casing::to_case(Case::Snake)` on `name`. The
/// contract claims only that the result's characters are
/// `snake_case_of(name@)`: convert_case computes them from the characters of
/// `name` and nothing else. How it splits words and joins them with `_` is
/// not stated.
#[verifier::external_body]
fn to_snake_case(name: &str) -> (r: String)
    ensures
        r@ == snake_case_of(name@),
{
    name.to_case(Case::Snake)
}

/// The names of the variants of `TrackControl`, in declaration order.
pub open spec fn track_control_names() -> Seq<Seq<char>> {
    seq!["None"@, "Volume"@, "Pan"@, "Mute"@, "Solo"@, "RecordArm"@, "Custom"@]
}

/// The names of the variants of `PlaybackControl`, in declaration order.
pub open spec fn playback_control_names() -> Seq<Seq<char>> {
    seq![
        "None"@,
        "Play"@,
        "Stop"@,
        "Pause"@,
        "Record"@,
        "Rewind"@,
        "FastForward"@,
        "JumpToPreviousMarker"@,
        "JumpToNextMarker"@,
        "JumpToStart"@,
        "JumpToEnd"@,
        "JumpForwardBars"@,
        "JumpBackwardBars"@,
    ]
}

/// The snake-case names by which scripts ask for each variant.
pub open spec fn snake_names(names: Seq<Seq<char>>) -> Seq<Seq<char>> {
    names.map_values(|n: Seq<char>| snake_case_of(n))
}

/// The characters held by a list of strings.
pub open spec fn strings_view(v: Seq<String>) -> Seq<Seq<char>> {
    v.map_values(|s: String| s@)
}

fn track_control_name(i: usize) -> (r: &'static str)
    requires
        i < 7,
    ensures
        r@ == track_control_names()[i as int],
{
    match i {
        0 => "None",
        1 => "Volume",
        2 => "Pan",
        3 => "Mute",
        4 => "Solo",
        5 => "RecordArm",
        _ => "Custom",
    }
}

fn playback_control_name(i: usize) -> (r: &'static str)
    requires
        i < 13,
    ensures
        r@ == playback_control_names()[i as int],
{
    match i {
        0 => "None",
        1 => "Play",
        2 => "Stop",
        3 => "Pause",
        4 => "Record",
        5 => "Rewind",
        6 => "FastForward",
        7 => "JumpToPreviousMarker",
        8 => "JumpToNextMarker",
        9 => "JumpToStart",
        10 => "JumpToEnd",
        11 => "JumpForwardBars",
        _ => "JumpBackwardBars",
    }
}

/// The names of a list of string slices.
pub open spec fn strs_view(v: Seq<&str>) -> Seq<Seq<char>> {
    v.map_values(|s: &str| s@)
}

impl TrackControl {
    /// The names of the variants, in declaration order.
    pub fn variant_names() -> (r: Vec<&'static str>)
        ensures
            strs_view(r@) == track_control_names(),
    {
        let mut names: Vec<&'static str> = Vec::new();
        for i in 0..7
            invariant
                names@.len() == i,
                forall|j: int| 0 <= j < i ==> (#[trigger] names@[j])@ == track_control_names()[j],
        {
            names.push(track_control_name(i));
        }
        assert(strs_view(names@) =~= track_control_names());
        names
    }
}

impl PlaybackControl {
    /// The names of the variants, in declaration order.
    pub fn variant_names() -> (r: Vec<&'static str>)
        ensures
            strs_view(r@) == playback_control_names(),
    {
        let mut names: Vec<&'static str> = Vec::new();
        for i in 0..13
            invariant
                names@.len() == i,
                forall|j: int|
                    0 <= j < i ==> (#[trigger] names@[j])@ == playback_control_names()[j],
        {
            names.push(playback_control_name(i));
        }
        assert(strs_view(names@) =~= playback_control_names());
        names
    }
}

/// The position of the first name equal to `target`.
fn position_of(names: &Vec<String>, target: &str) -> (r: Option<usize>)
    ensures
        match r {
            Some(i) => strings_view(names@).index_of_first(target@) == Some(i as int),
            None => strings_view(names@).index_of_first(target@) is None,
        },
{
    let ghost v = strings_view(names@);
    proof {
        v.index_of_first_ensures(target@);
    }
    for i in 0..names.len()
        invariant
            v == strings_view(names@),
            forall|j: int| 0 <= j < i ==> v[j] != target@,
            match v.index_of_first(target@) {
                Some(k) => v.contains(target@) && 0 <= k < v.len() && v[k] == target@
                    && forall|j: int| 0 <= j < k ==> v[j] != target@,
                None => !v.contains(target@),
            },
    {
        if str_eq(names[i].as_str(), target) {
            assert(v[i as int] == target@);
            return Some(i);
        }
    }
    assert(!v.contains(target@));
    None
}

/// The snake-case names of the given variant names, converted one by one.
fn snake_case_all(names: &Vec<&str>) -> (r: Vec<String>)
    ensures
        strings_view(r@) == names@.map_values(|n: &str| snake_case_of(n@)),
{
    let mut out: Vec<String> = Vec::new();
    for i in 0..names.len()
        invariant
            strings_view(out@) == names@.take(i as int).map_values(|n: &str| snake_case_of(n@)),
    {
        let s = to_snake_case(names[i]);
        let ghost before = out@;
        out.push(s);
        assert(strings_view(out@) =~= strings_view(before).push(snake_case_of(names@[i as int]@)));
        assert(names@.take(i + 1) =~= names@.take(i as int).push(names@[i as int]));
        assert(strings_view(out@) =~= names@.take(i + 1).map_values(|n: &str| snake_case_of(n@)));
    }
    assert(names@.take(names.len() as int) =~= names@);
    out
}

/// The track control that the variant at position `i` of
/// `track_control_names` stands for, given `value`; `None` for a variant that
/// cannot be asked for by name.
pub open spec fn track_control_at(i: int, value: FloatBits) -> Option<TrackControl> {
    if i == 1 {
        Some(TrackControl::Volume(value))
    } else if i == 2 {
        Some(TrackControl::Pan(value))
    } else if i == 3 {
        Some(TrackControl::Mute(float_is_nonzero(value)))
    } else if i == 4 {
        Some(TrackControl::Solo(float_is_nonzero(value)))
    } else if i == 5 {
        Some(TrackControl::RecordArm(float_is_nonzero(value)))
    } else {
        None
    }
}

/// The playback control that the variant at position `i` of
/// `playback_control_names` stands for, with its default fields.
pub open spec fn playback_control_at(i: int) -> PlaybackControl {
    if i == 1 {
        PlaybackControl::Play
    } else if i == 2 {
        PlaybackControl::Stop
    } else if i == 3 {
        PlaybackControl::Pause
    } else if i == 4 {
        PlaybackControl::Record
    } else if i == 5 {
        PlaybackControl::Rewind
    } else if i == 6 {
        PlaybackControl::FastForward
    } else if i == 7 {
        PlaybackControl::JumpToPreviousMarker
    } else if i == 8 {
        PlaybackControl::JumpToNextMarker
    } else if i == 9 {
        PlaybackControl::JumpToStart
    } else if i == 10 {
        PlaybackControl::JumpToEnd
    } else if i == 11 {
        PlaybackControl::JumpForwardBars(0)
    } else if i == 12 {
        PlaybackControl::JumpBackwardBars(0)
    } else {
        PlaybackControl::Nothing
    }
}

/// What `track_control` returns when the variants of `TrackControl` are
/// asked for by the names `names`: the first variant whose name is
/// `control_type` is chosen; a name that matches none is invalid, and the
/// variants `None` and `Custom` cannot be built this way.
pub open spec fn track_control_outcome(
    names: Seq<Seq<char>>,
    track_num: usize,
    control_type: Seq<char>,
    value: FloatBits,
    r: Result<DawControlMessage, ControlError>,
) -> bool {
    match names.index_of_first(control_type) {
        None => r matches Err(ControlError::InvalidTrackControlType(t)) && t@ == control_type,
        Some(i) => match track_control_at(i, value) {
            Some(c) => r == Ok::<DawControlMessage, ControlError>(
                DawControlMessage::TrackControl(track_num, c),
            ),
            None => r matches Err(ControlError::UnsupportedTrackControlType(t)) && t@
                == control_type,
        },
    }
}

/// What `playback_control` returns when the variants of `PlaybackControl`
/// are asked for by the names `names`.
pub open spec fn playback_control_outcome(
    names: Seq<Seq<char>>,
    control_type: Seq<char>,
    r: Result<DawControlMessage, ControlError>,
) -> bool {
    match names.index_of_first(control_type) {
        None => r matches Err(ControlError::InvalidPlaybackControlType(t)) && t@ == control_type,
        Some(i) => r == Ok::<DawControlMessage, ControlError>(
            DawControlMessage::PlaybackControl(playback_control_at(i)),
        ),
    }
}

impl DawControlMessage {
    /// Builds a track control for track `track_num` from the snake-case name
    /// of a `TrackControl` variant and a value: the value itself for `volume`
    /// and `pan`, whether it is nonzero for `mute`, `solo` and `record_arm`.
    pub fn track_control(track_num: usize, control_type: &str, value: FloatBits) -> (r: Result<
        Self,
        ControlError,
    >)
        ensures
            track_control_outcome(
                snake_names(track_control_names()),
                track_num,
                control_type@,
                value,
                r,
            ),
    {
        let names = TrackControl::variant_names();
        let snake = snake_case_all(&names);
        assert(strings_view(snake@) =~= snake_names(track_control_names()));
        Self::track_control_named(&snake, track_num, control_type, value)
    }

    /// `track_control`, with the snake-case names of the seven variants of
    /// `TrackControl` given in declaration order.
    pub fn track_control_named(
        names: &Vec<String>,
        track_num: usize,
        control_type: &str,
        value: FloatBits,
    ) -> (r: Result<Self, ControlError>)
        requires
            names@.len() == 7,
        ensures
            track_control_outcome(strings_view(names@), track_num, control_type@, value, r),
    {
        match position_of(names, control_type) {
            None => Err(ControlError::InvalidTrackControlType(control_type.to_owned())),
            Some(i) => {
                let control = if i == 1 {
                    TrackControl::Volume(value)
                } else if i == 2 {
                    TrackControl::Pan(value)
                } else if i == 3 {
                    TrackControl::Mute(is_nonzero(value))
                } else if i == 4 {
                    TrackControl::Solo(is_nonzero(value))
                } else if i == 5 {
                    TrackControl::RecordArm(is_nonzero(value))
                } else {
                    return Err(ControlError::UnsupportedTrackControlType(control_type.to_owned()));
                };
                Ok(DawControlMessage::TrackControl(track_num, control))
            },
        }
    }

    /// Builds a playback control from the snake-case name of a
    /// `PlaybackControl` variant; the variant carries its default fields.
    pub fn playback_control(control_type: &str) -> (r: Result<Self, ControlError>)
        ensures
            playback_control_outcome(snake_names(playback_control_names()), control_type@, r),
    {
        let names = PlaybackControl::variant_names();
        let snake = snake_case_all(&names);
        assert(strings_view(snake@) =~= snake_names(playback_control_names()));
        Self::playback_control_named(&snake, control_type)
    }

    /// `playback_control`, with the snake-case names of the thirteen
    /// variants of `PlaybackControl` given in declaration order.
    pub fn playback_control_named(names: &Vec<String>, control_type: &str) -> (r: Result<
        Self,
        ControlError,
    >)
        requires
            names@.len() == 13,
        ensures
            playback_control_outcome(strings_view(names@), control_type@, r),
    {
        match position_of(names, control_type) {
            None => Err(ControlError::InvalidPlaybackControlType(control_type.to_owned())),
            Some(i) => {
                let control = if i == 1 {
                    PlaybackControl::Play
                } else if i == 2 {
                    PlaybackControl::Stop
                } else if i == 3 {
                    PlaybackControl::Pause
                } else if i == 4 {
                    PlaybackControl::Record
                } else if i == 5 {
                    PlaybackControl::Rewind
                } else if i == 6 {
                    PlaybackControl::FastForward
                } else if i == 7 {
                    PlaybackControl::JumpToPreviousMarker
                } else if i == 8 {
                    PlaybackControl::JumpToNextMarker
                } else if i == 9 {
                    PlaybackControl::JumpToStart
                } else if i == 10 {
                    PlaybackControl::JumpToEnd
                } else if i == 11 {
                    PlaybackControl::JumpForwardBars(0)
                } else if i == 12 {
                    PlaybackControl::JumpBackwardBars(0)
                } else {
                    PlaybackControl::Nothing
                };
                Ok(DawControlMessage::PlaybackControl(control))
            },
        }
    }
}

/// The address suffix under `/track/<n>/` that a track control is sent to.
pub open spec fn track_control_suffix(c: TrackControl) -> Seq<char> {
    match c {
        TrackControl::Volume(_) => "volume/db"@,
        TrackControl::Pan(_) => "pan"@,
        TrackControl::Mute(_) => "mute"@,
        TrackControl::Solo(_) => "solo"@,
        TrackControl::RecordArm(_) => "record_arm"@,
        _ => Seq::empty(),
    }
}

/// An OSC integer that stands for a flag.
pub open spec fn flag_arg(b: bool) -> OscArgView {
    OscArgView::Int(if b { 1 } else { 0 })
}

/// The arguments that a track control is sent with.
pub open spec fn track_control_args(c: TrackControl) -> Seq<OscArgView> {
    match c {
        TrackControl::Volume(v) => seq![OscArgView::Float(v)],
        TrackControl::Pan(v) => seq![OscArgView::Float(v)],
        TrackControl::Mute(b) => seq![flag_arg(b)],
        TrackControl::Solo(b) => seq![flag_arg(b)],
        TrackControl::RecordArm(b) => seq![flag_arg(b)],
        _ => Seq::empty(),
    }
}

/// The OSC message that a request is sent as. Track controls go to
/// `/track/<n>/` followed by the control's suffix; `Play` and `Stop` go to
/// `/play` and `/stop`; a custom message is sent as it is; every other
/// request gives an empty address and no arguments.
pub open spec fn osc_message_of(m: DawControlMessage) -> OscMessageView {
    match m {
        DawControlMessage::TrackControl(n, c) => OscMessageView {
            addr: "/track/"@ + decimal(n as nat) + "/"@ + track_control_suffix(c),
            args: track_control_args(c),
        },
        DawControlMessage::PlaybackControl(PlaybackControl::Play) => OscMessageView {
            addr: "/play"@,
            args: Seq::empty(),
        },
        DawControlMessage::PlaybackControl(PlaybackControl::Stop) => OscMessageView {
            addr: "/stop"@,
            args: Seq::empty(),
        },
        DawControlMessage::Custom(a, args) => OscMessageView { addr: a@, args: args_view(args@) },
        _ => OscMessageView { addr: Seq::empty(), args: Seq::empty() },
    }
}

fn flag_value(b: bool) -> (r: i32)
    ensures
        OscArgView::Int(r) == flag_arg(b),
{
    if b {
        1
    } else {
        0
    }
}

impl DawControlMessage {
    /// The OSC message that this request is sent as.
    pub fn to_osc(&self) -> (r: OscMessage)
        ensures
            r@ == osc_message_of(*self),
    {
        let mut addr = String::new();
        let mut args: Vec<OscArg> = Vec::new();
        match self {
            DawControlMessage::TrackControl(track_num, control) => {
                addr = "/track/".to_owned();
                push_decimal(&mut addr, *track_num);
                addr.append("/");
                match control {
                    TrackControl::Volume(vol) => {
                        addr.append("volume/db");
                        args.push(OscArg::Float(*vol));
                    },
                    TrackControl::Pan(pan) => {
                        addr.append("pan");
                        args.push(OscArg::Float(*pan));
                    },
                    TrackControl::Mute(mute) => {
                        addr.append("mute");
                        args.push(OscArg::Int(flag_value(*mute)));
                    },
                    TrackControl::Solo(solo) => {
                        addr.append("solo");
                        args.push(OscArg::Int(flag_value(*solo)));
                    },
                    TrackControl::RecordArm(record_arm) => {
                        addr.append("record_arm");
                        args.push(OscArg::Int(flag_value(*record_arm)));
                    },
                    _ => {
                        assert(addr@ =~= addr@ + Seq::<char>::empty());
                    },
                }
            },
            DawControlMessage::PlaybackControl(control) => match control {
                PlaybackControl::Play => addr = "/play".to_owned(),
                PlaybackControl::Stop => addr = "/stop".to_owned(),
                _ => {},
            },
            DawControlMessage::Custom(custom_addr, custom_args) => {
                addr = custom_addr.clone();
                args = clone_args(custom_args);
            },
            DawControlMessage::Nothing => {},
        }
        let r = OscMessage { addr, args };
        assert(r@.args =~= osc_message_of(*self).args);
        r
    }
}

/// The state of one effect on a track.
#[derive(Clone, Debug, PartialEq)]
pub struct FxState {
    pub name: String,
    pub preset: String,
    pub bypassed: bool,
}

/// The mathematical value of an `FxState`.
pub struct FxStateView {
    pub name: Seq<char>,
    pub preset: Seq<char>,
    pub bypassed: bool,
}

impl View for FxState {
    type V = FxStateView;

    open spec fn view(&self) -> FxStateView {
        FxStateView { name: self.name@, preset: self.preset@, bypassed: self.bypassed }
    }
}

impl Default for FxState {
    fn default() -> (r: Self)
        ensures
            r@ == (FxStateView { name: Seq::empty(), preset: Seq::empty(), bypassed: false }),
    {
        FxState { name: String::new(), preset: String::new(), bypassed: false }
    }
}

/// The mirrored state of one track. Levels and positions are floats, held
/// by their bit patterns.
#[derive(Clone, Debug, PartialEq)]
pub struct TrackState {
    pub name: String,
    pub volume: FloatBits,
    pub vu_lr: FloatBits,
    pub vu_l: FloatBits,
    pub vu_r: FloatBits,
    pub pan: FloatBits,
    pub mute: bool,
    pub solo: bool,
    pub record_armed: bool,
    pub fx_bypassed: bool,
    pub fx: Vec<FxState>,
}

/// The mathematical value of a `TrackState`.
pub struct TrackStateView {
    pub name: Seq<char>,
    pub volume: FloatBits,
    pub vu_lr: FloatBits,
    pub vu_l: FloatBits,
    pub vu_r: FloatBits,
    pub pan: FloatBits,
    pub mute: bool,
    pub solo: bool,
    pub record_armed: bool,
    pub fx_bypassed: bool,
    pub fx: Seq<FxStateView>,
}

impl View for TrackState {
    type V = TrackStateView;

    open spec fn view(&self) -> TrackStateView {
        TrackStateView {
            name: self.name@,
            volume: self.volume,
            vu_lr: self.vu_lr,
            vu_l: self.vu_l,
            vu_r: self.vu_r,
            pan: self.pan,
            mute: self.mute,
            solo: self.solo,
            record_armed: self.record_armed,
            fx_bypassed: self.fx_bypassed,
            fx: self.fx@.map_values(|f: FxState| f@),
        }
    }
}

/// A track with no name, all levels `0.0`, no flag set and no effects.
pub open spec fn default_track() -> TrackStateView {
    TrackStateView {
        name: Seq::empty(),
        volume: 0,
        vu_lr: 0,
        vu_l: 0,
        vu_r: 0,
        pan: 0,
        mute: false,
        solo: false,
        record_armed: false,
        fx_bypassed: false,
        fx: Seq::empty(),
    }
}

impl Default for TrackState {
    fn default() -> (r: Self)
        ensures
            r@ == default_track(),
    {
        let r = TrackState {
            name: String::new(),
            volume: 0,
            vu_lr: 0,
            vu_l: 0,
            vu_r: 0,
            pan: 0,
            mute: false,
            solo: false,
            record_armed: false,
            fx_bypassed: false,
            fx: Vec::new(),
        };
        assert(r@.fx =~= Seq::<FxStateView>::empty());
        r
    }
}

/// The mirrored transport state.
#[derive(Clone, Debug, PartialEq)]
pub struct PlayState {
    pub is_playing: bool,
    pub beats_str: String,
    pub time_str: String,
    pub time_seconds: FloatBits,
}

/// The mathematical value of a `PlayState`.
pub struct PlayStateView {
    pub is_playing: bool,
    pub beats_str: Seq<char>,
    pub time_str: Seq<char>,
    pub time_seconds: FloatBits,
}

impl View for PlayState {
    type V = PlayStateView;

    open spec fn view(&self) -> PlayStateView {
        PlayStateView {
            is_playing: self.is_playing,
            beats_str: self.beats_str@,
            time_str: self.time_str@,
            time_seconds: self.time_seconds,
        }
    }
}

impl Default for PlayState {
    fn default() -> (r: Self)
        ensures
            r@ == (PlayStateView {
                is_playing: false,
                beats_str: Seq::empty(),
                time_str: Seq::empty(),
                time_seconds: 0,
            }),
    {
        PlayState {
            is_playing: false,
            beats_str: String::new(),
            time_str: String::new(),
            time_seconds: 0,
        }
    }
}

/// The mirror of the DAW: transport, master track and the mirrored tracks,
/// track `n` (counting from 1) at position `n - 1`.
#[derive(Clone, Debug, PartialEq)]
pub struct DawState {
    pub play_state: PlayState,
    pub master_track: TrackState,
    pub tracks: [TrackState; 8],
}

/// The mathematical value of a `DawState`.
pub struct DawStateView {
    pub play_state: PlayStateView,
    pub master_track: TrackStateView,
    pub tracks: Seq<TrackStateView>,
}

/// The values of a list of tracks.
pub open spec fn tracks_view(tracks: Seq<TrackState>) -> Seq<TrackStateView> {
    tracks.map_values(|t: TrackState| t@)
}

impl View for DawState {
    type V = DawStateView;

    open spec fn view(&self) -> DawStateView {
        DawStateView {
            play_state: self.play_state@,
            master_track: self.master_track@,
            tracks: tracks_view(self.tracks@),
        }
    }
}

impl Default for DawState {
    fn default() -> (r: Self)
        ensures
            r@.play_state == (PlayStateView {
                is_playing: false,
                beats_str: Seq::empty(),
                time_str: Seq::empty(),
                time_seconds: 0,
            }),
            r@.master_track == default_track(),
            r@.tracks == Seq::new(TRACK_COUNT as nat, |i: int| default_track()),
    {
        let r = DawState {
            play_state: PlayState::default(),
            master_track: TrackState::default(),
            tracks: [
                TrackState::default(),
                TrackState::default(),
                TrackState::default(),
                TrackState::default(),
                TrackState::default(),
                TrackState::default(),
                TrackState::default(),
                TrackState::default(),
            ],
        };
        assert(r@.tracks =~= Seq::new(TRACK_COUNT as nat, |i: int| default_track()));
        r
    }
}

/// The first argument, where it is a string.
pub open spec fn first_string(args: Seq<OscArgView>) -> Option<Seq<char>> {
    if args.len() > 0 && args[0] is String {
        Some(args[0]->String_0)
    } else {
        None
    }
}

/// The first argument, where it is a 32-bit float.
pub open spec fn first_float(args: Seq<OscArgView>) -> Option<FloatBits> {
    if args.len() > 0 && args[0] is Float {
        Some(args[0]->Float_0)
    } else {
        None
    }
}

/// A track after a message addressed to it, `rest` being the address
/// segments after the track's own: `name` takes a string; `volume/db`,
/// `vu`, `vu/L`, `vu/R` and `pan` take a float; `mute`, `solo` and `recarm`
/// take a float and set the flag when it is nonzero. A message whose first
/// argument is not of the expected kind, or whose address is none of these,
/// changes nothing.
pub open spec fn track_after(t: TrackStateView, rest: Seq<Seq<char>>, args: Seq<OscArgView>) -> TrackStateView {
    if rest == seq!["name"@] {
        match first_string(args) {
            Some(s) => TrackStateView { name: s, ..t },
            None => t,
        }
    } else if rest == seq!["volume"@, "db"@] {
        match first_float(args) {
            Some(v) => TrackStateView { volume: v, ..t },
            None => t,
        }
    } else if rest == seq!["vu"@] {
        match first_float(args) {
            Some(v) => TrackStateView { vu_lr: v, ..t },
            None => t,
        }
    } else if rest == seq!["vu"@, "L"@] {
        match first_float(args) {
            Some(v) => TrackStateView { vu_l: v, ..t },
            None => t,
        }
    } else if rest == seq!["vu"@, "R"@] {
        match first_float(args) {
            Some(v) => TrackStateView { vu_r: v, ..t },
            None => t,
        }
    } else if rest == seq!["pan"@] {
        match first_float(args) {
            Some(v) => TrackStateView { pan: v, ..t },
            None => t,
        }
    } else if rest == seq!["mute"@] {
        match first_float(args) {
            Some(v) => TrackStateView { mute: float_is_nonzero(v), ..t },
            None => t,
        }
    } else if rest == seq!["solo"@] {
        match first_float(args) {
            Some(v) => TrackStateView { solo: float_is_nonzero(v), ..t },
            None => t,
        }
    } else if rest == seq!["recarm"@] {
        match first_float(args) {
            Some(v) => TrackStateView { record_armed: float_is_nonzero(v), ..t },
            None => t,
        }
    } else {
        t
    }
}

/// The track number that a `/track/<n>/...` address names, where it is a
/// number from 1 to the track count.
pub open spec fn addressed_track(segments: Seq<Seq<char>>) -> Option<int> {
    if segments.len() >= 2 && segments[0] == "track"@ {
        match parse_usize_spec(segments[1]) {
            Some(n) => if 1 <= n <= TRACK_COUNT {
                Some(n as int)
            } else {
                None
            },
            None => None,
        }
    } else {
        None
    }
}

/// The state after a message from the DAW, by the segments of its address:
/// `master/...` and `track/<n>/...` (for `n` from 1 to the track count)
/// update that track; `beat/str` and `time/str` take a string, `time` a
/// float; `play` and `stop` set whether the transport runs. Any other
/// message, and one whose first argument is not of the expected kind,
/// changes nothing.
pub open spec fn daw_after(s: DawStateView, addr: Seq<char>, args: Seq<OscArgView>) -> DawStateView {
    let p = path_segments(addr);
    if p.len() >= 1 && p[0] == "master"@ {
        DawStateView { master_track: track_after(s.master_track, p.skip(1), args), ..s }
    } else if p.len() >= 2 && p[0] == "track"@ {
        match addressed_track(p) {
            Some(n) => DawStateView {
                tracks: s.tracks.update(n - 1, track_after(s.tracks[n - 1], p.skip(2), args)),
                ..s
            },
            None => s,
        }
    } else if p == seq!["beat"@, "str"@] {
        match first_string(args) {
            Some(v) => DawStateView { play_state: PlayStateView { beats_str: v, ..s.play_state }, ..s },
            None => s,
        }
    } else if p == seq!["time"@, "str"@] {
        match first_string(args) {
            Some(v) => DawStateView { play_state: PlayStateView { time_str: v, ..s.play_state }, ..s },
            None => s,
        }
    } else if p == seq!["time"@] {
        match first_float(args) {
            Some(v) => DawStateView {
                play_state: PlayStateView { time_seconds: v, ..s.play_state },
                ..s
            },
            None => s,
        }
    } else if p == seq!["play"@] {
        DawStateView { play_state: PlayStateView { is_playing: true, ..s.play_state }, ..s }
    } else if p == seq!["stop"@] {
        DawStateView { play_state: PlayStateView { is_playing: false, ..s.play_state }, ..s }
    } else {
        s
    }
}

/// Whether the segments from position `from` on are exactly `[w0]`.
fn rest_is1(segs: &Vec<Vec<char>>, from: usize, w0: &str) -> (r: bool)
    requires
        from <= segs@.len(),
    ensures
        r == (runs_view(segs@).skip(from as int) == seq![w0@]),
{
    let ghost rest = runs_view(segs@).skip(from as int);
    if segs.len() - from != 1 {
        assert(rest.len() != 1);
        return false;
    }
    let r = chars_eq_str(segs[from].as_slice(), w0);
    assert(rest[0] == segs@[from as int]@);
    if r {
        assert(rest =~= seq![w0@]);
    }
    r
}

/// Whether the segments from position `from` on are exactly `[w0, w1]`.
fn rest_is2(segs: &Vec<Vec<char>>, from: usize, w0: &str, w1: &str) -> (r: bool)
    requires
        from <= segs@.len(),
    ensures
        r == (runs_view(segs@).skip(from as int) == seq![w0@, w1@]),
{
    let ghost rest = runs_view(segs@).skip(from as int);
    if segs.len() - from != 2 {
        assert(rest.len() != 2);
        return false;
    }
    let r = chars_eq_str(segs[from].as_slice(), w0) && chars_eq_str(segs[from + 1].as_slice(), w1);
    assert(rest[0] == segs@[from as int]@);
    assert(rest[1] == segs@[from + 1]@);
    if r {
        assert(rest =~= seq![w0@, w1@]);
    }
    r
}

/// The first argument, where it is a string.
fn first_string_of(args: &Vec<OscArg>) -> (r: Option<&String>)
    ensures
        match r {
            Some(s) => first_string(args_view(args@)) == Some(s@),
            None => first_string(args_view(args@)) is None,
        },
{
    if args.len() > 0 {
        match &args[0] {
            OscArg::String(s) => Some(s),
            _ => None,
        }
    } else {
        None
    }
}

/// The first argument, where it is a 32-bit float.
fn first_float_of(args: &Vec<OscArg>) -> (r: Option<FloatBits>)
    ensures
        r == first_float(args_view(args@)),
{
    if args.len() > 0 {
        match &args[0] {
            OscArg::Float(v) => Some(*v),
            _ => None,
        }
    } else {
        None
    }
}

/// Applies a message addressed to a track, `segs[from..]` being the address
/// segments after the track's own.
fn update_track(track: &mut TrackState, segs: &Vec<Vec<char>>, from: usize, args: &Vec<OscArg>)
    requires
        from <= segs@.len(),
    ensures
        final(track)@ == track_after(old(track)@, runs_view(segs@).skip(from as int), args_view(args@)),
{
    if rest_is1(segs, from, "name") {
        if let Some(name) = first_string_of(args) {
            track.name = name.clone();
        }
    } else if rest_is2(segs, from, "volume", "db") {
        if let Some(v) = first_float_of(args) {
            track.volume = v;
        }
    } else if rest_is1(segs, from, "vu") {
        if let Some(v) = first_float_of(args) {
            track.vu_lr = v;
        }
    } else if rest_is2(segs, from, "vu", "L") {
        if let Some(v) = first_float_of(args) {
            track.vu_l = v;
        }
    } else if rest_is2(segs, from, "vu", "R") {
        if let Some(v) = first_float_of(args) {
            track.vu_r = v;
        }
    } else if rest_is1(segs, from, "pan") {
        if let Some(v) = first_float_of(args) {
            track.pan = v;
        }
    } else if rest_is1(segs, from, "mute") {
        if let Some(v) = first_float_of(args) {
            track.mute = is_nonzero(v);
        }
    } else if rest_is1(segs, from, "solo") {
        if let Some(v) = first_float_of(args) {
            track.solo = is_nonzero(v);
        }
    } else if rest_is1(segs, from, "recarm") {
        if let Some(v) = first_float_of(args) {
            track.record_armed = is_nonzero(v);
        }
    }
}

/// Applies one message from the DAW to the mirror.
pub fn update_daw_state(msg: OscMessage, daw_state: &mut DawState)
    ensures
        final(daw_state)@ == daw_after(old(daw_state)@, msg.addr@, args_view(msg.args@)),
{
    let chars = chars_of(msg.addr.as_str());
    let segs = split_path(chars.as_slice());
    let ghost p = runs_view(segs@);
    assert(p == path_segments(msg.addr@));
    let ghost args = args_view(msg.args@);
    if segs.len() >= 1 && chars_eq_str(segs[0].as_slice(), "master") {
        update_track(&mut daw_state.master_track, &segs, 1, &msg.args);
    } else if segs.len() >= 2 && chars_eq_str(segs[0].as_slice(), "track") {
        match parse_usize(segs[1].as_slice()) {
            Some(track_num) => {
                if track_num > 0 && track_num <= TRACK_COUNT {
                    let ghost before = daw_state.tracks@;
                    update_track(&mut daw_state.tracks[track_num - 1], &segs, 2, &msg.args);
                    assert(tracks_view(daw_state.tracks@) =~= tracks_view(before).update(
                        track_num - 1,
                        track_after(before[track_num - 1]@, p.skip(2), args),
                    ));
                }
            },
            None => {},
        }
    } else if rest_is2(&segs, 0, "beat", "str") {
        assert(p.skip(0) =~= p);
        if let Some(beat_str) = first_string_of(&msg.args) {
            daw_state.play_state.beats_str = beat_str.clone();
        }
    } else if rest_is2(&segs, 0, "time", "str") {
        assert(p.skip(0) =~= p);
        if let Some(time_str) = first_string_of(&msg.args) {
            daw_state.play_state.time_str = time_str.clone();
        }
    } else if rest_is1(&segs, 0, "time") {
        assert(p.skip(0) =~= p);
        if let Some(time_sec) = first_float_of(&msg.args) {
            daw_state.play_state.time_seconds = time_sec;
        }
    } else if rest_is1(&segs, 0, "play") {
        assert(p.skip(0) =~= p);
        daw_state.play_state.is_playing = true;
    } else if rest_is1(&segs, 0, "stop") {
        assert(p.skip(0) =~= p);
        daw_state.play_state.is_playing = false;
    } else {
        assert(p.skip(0) =~= p);
    }
}

impl DawState {
    /// Applies one message from the DAW to the mirror: see `daw_after`.
    pub fn update_from_osc_message(&mut self, msg: OscMessage)
        ensures
            final(self)@ == daw_after(old(self)@, msg.addr@, args_view(msg.args@)),
    {
        update_daw_state(msg, self);
    }
}


/// A track update is idempotent: applying the same message twice leaves
/// the track as applying it once does.
pub proof fn lemma_track_after_idempotent(t: TrackStateView, rest: Seq<Seq<char>>, args: Seq<OscArgView>)
    ensures
        track_after(track_after(t, rest, args), rest, args) == track_after(t, rest, args),
{
}

/// Applying the same message from the DAW twice leaves the mirror as
/// applying it once does.
pub proof fn lemma_update_idempotent(s: DawStateView, addr: Seq<char>, args: Seq<OscArgView>)
    requires
        s.tracks.len() == TRACK_COUNT,
    ensures
        daw_after(daw_after(s, addr, args), addr, args) == daw_after(s, addr, args),
{
    let p = path_segments(addr);
    let once = daw_after(s, addr, args);
    if p.len() >= 1 && p[0] == "master"@ {
        lemma_track_after_idempotent(s.master_track, p.skip(1), args);
    } else if p.len() >= 2 && p[0] == "track"@ {
        match addressed_track(p) {
            Some(n) => {
                let t = track_after(s.tracks[n - 1], p.skip(2), args);
                lemma_track_after_idempotent(s.tracks[n - 1], p.skip(2), args);
                assert(once.tracks[n - 1] == t);
                assert(once.tracks.update(n - 1, track_after(once.tracks[n - 1], p.skip(2), args))
                    =~= once.tracks);
            },
            None => {},
        }
    }
}

/// A message from the DAW changes at most the track that its address names:
/// every other mirrored track stays as it was, and the number of mirrored
/// tracks does not change.
pub proof fn lemma_update_touches_addressed_track_only(
    s: DawStateView,
    addr: Seq<char>,
    args: Seq<OscArgView>,
    i: int,
)
    requires
        s.tracks.len() == TRACK_COUNT,
        0 <= i < TRACK_COUNT,
        addressed_track(path_segments(addr)) != Some(i + 1),
    ensures
        daw_after(s, addr, args).tracks.len() == TRACK_COUNT,
        daw_after(s, addr, args).tracks[i] == s.tracks[i],
{
}

/// A message from the DAW to a track leaves the transport and the master
/// track as they were.
pub proof fn lemma_track_message_keeps_transport_and_master(
    s: DawStateView,
    addr: Seq<char>,
    args: Seq<OscArgView>,
)
    requires
        addressed_track(path_segments(addr)) is Some,
    ensures
        daw_after(s, addr, args).play_state == s.play_state,
        daw_after(s, addr, args).master_track == s.master_track,
{
    reveal_strlit("master");
    reveal_strlit("track");
    let p = path_segments(addr);
    assert(p[0] == "track"@);
    assert("track"@.len() != "master"@.len());
}

/// A decimal number is a valid address segment: non-empty, without `'/'`.
proof fn lemma_decimal_is_segment(n: nat)
    ensures
        is_segment(decimal(n)),
{
    let d = decimal(n);
    lemma_decimal_digits(n);
    assert forall|i: int| 0 <= i < d.len() implies d[i] != '/' by {
        assert(is_digit(d[i]));
    }
}

proof fn lemma_slash_path_cons(w: Seq<char>, ws: Seq<Seq<char>>)
    ensures
        slash_path(seq![w] + ws) == seq!['/'] + w + slash_path(ws),
{
    assert((seq![w] + ws).drop_first() =~= ws);
}

/// The address of a track control is `/track/<n>/` followed by the words of
/// its suffix, read as path segments.
proof fn lemma_track_control_path(n: usize, suffix: Seq<Seq<char>>)
    requires
        suffix.len() > 0,
        forall|i: int| 0 <= i < suffix.len() ==> is_segment(#[trigger] suffix[i]),
    ensures
        path_segments("/track/"@ + decimal(n as nat) + "/"@ + slash_path(suffix).drop_first())
            == seq!["track"@, decimal(n as nat)] + suffix,
{
    let d = decimal(n as nat);
    let t = "track"@;
    lemma_decimal_is_segment(n as nat);
    assert(is_segment(t)) by {
        reveal_strlit("track");
    }
    let ws = seq![t, d] + suffix;
    assert forall|i: int| 0 <= i < ws.len() implies is_segment(#[trigger] ws[i]) by {
        if i >= 2 {
            assert(ws[i] == suffix[i - 2]);
        }
    }
    let tail = slash_path(suffix);
    assert(tail =~= seq!['/'] + tail.drop_first()) by {
        lemma_slash_path_cons(suffix[0], suffix.drop_first());
        assert(seq![suffix[0]] + suffix.drop_first() =~= suffix);
    }
    assert(slash_path(ws) == seq!['/'] + t + (seq!['/'] + d + tail)) by {
        assert(ws =~= seq![t] + (seq![d] + suffix));
        lemma_slash_path_cons(t, seq![d] + suffix);
        lemma_slash_path_cons(d, suffix);
    }
    assert("/track/"@ + d + "/"@ + tail.drop_first() =~= seq!['/'] + t + (seq!['/'] + d + tail)) by {
        reveal_strlit("/track/");
        reveal_strlit("/");
        reveal_strlit("track");
        assert("/track/"@ =~= seq!['/'] + t + seq!['/']);
        assert("/"@ =~= seq!['/']);
    }
    lemma_path_segments_of(ws);
}

/// Once the DAW echoes the OSC message of a volume change for track `n`
/// (from 1 to the track count), the mirror shows that volume on that track
/// and nothing else has changed.
pub proof fn lemma_volume_echo(s: DawStateView, n: usize, v: FloatBits)
    requires
        s.tracks.len() == TRACK_COUNT,
        1 <= n <= TRACK_COUNT,
    ensures
        ({
            let m = osc_message_of(DawControlMessage::TrackControl(n, TrackControl::Volume(v)));
            daw_after(s, m.addr, m.args) == DawStateView {
                tracks: s.tracks.update(n - 1, TrackStateView { volume: v, ..s.tracks[n - 1] }),
                ..s
            }
        }),
{
    reveal_strlit("volume/db");
    reveal_strlit("volume");
    reveal_strlit("db");
    reveal_strlit("name");
    reveal_strlit("master");
    reveal_strlit("track");
    let suffix = seq!["volume"@, "db"@];
    assert(slash_path(suffix.drop_first().drop_first()) =~= Seq::<char>::empty());
    assert(suffix.drop_first().drop_first() =~= Seq::<Seq<char>>::empty());
    assert(suffix.drop_first() =~= seq!["db"@]);
    assert(slash_path(seq!["db"@]) =~= seq!['/'] + "db"@);
    assert(slash_path(suffix).drop_first() =~= "volume/db"@);
    assert(is_segment(suffix[0]) && is_segment(suffix[1]));
    lemma_track_control_path(n, suffix);
    lemma_parse_decimal(n);
    let p = seq!["track"@, decimal(n as nat)] + suffix;
    assert(p.skip(2) =~= suffix);
    assert(p[0] == "track"@);
    assert(p[0].len() != "master"@.len());
}

/// Once the DAW echoes the OSC message of a pan change for track `n` (from
/// 1 to the track count), the mirror shows that pan position on that track
/// and nothing else has changed.
pub proof fn lemma_pan_echo(s: DawStateView, n: usize, v: FloatBits)
    requires
        s.tracks.len() == TRACK_COUNT,
        1 <= n <= TRACK_COUNT,
    ensures
        ({
            let m = osc_message_of(DawControlMessage::TrackControl(n, TrackControl::Pan(v)));
            daw_after(s, m.addr, m.args) == DawStateView {
                tracks: s.tracks.update(n - 1, TrackStateView { pan: v, ..s.tracks[n - 1] }),
                ..s
            }
        }),
{
    reveal_strlit("pan");
    reveal_strlit("vu");
    reveal_strlit("name");
    reveal_strlit("master");
    reveal_strlit("track");
    let suffix = seq!["pan"@];
    assert(suffix.drop_first() =~= Seq::<Seq<char>>::empty());
    assert(slash_path(Seq::<Seq<char>>::empty()) =~= Seq::<char>::empty());
    assert(slash_path(suffix).drop_first() =~= "pan"@);
    assert(is_segment(suffix[0]));
    lemma_track_control_path(n, suffix);
    lemma_parse_decimal(n);
    let p = seq!["track"@, decimal(n as nat)] + suffix;
    assert(p.skip(2) =~= suffix);
    assert(p[0] == "track"@);
    assert(p[0].len() != "master"@.len());
    assert(suffix != seq!["name"@]);
    assert(suffix != seq!["vu"@]);
}

/// Whether the segments after a track's own name a field that a message can
/// set: `name`, `volume/db`, `vu`, `vu/L`, `vu/R`, `pan`, `mute`, `solo` or
/// `recarm`.
pub open spec fn track_path_handled(rest: Seq<Seq<char>>) -> bool {
    ||| rest == seq!["name"@]
    ||| rest == seq!["volume"@, "db"@]
    ||| rest == seq!["vu"@]
    ||| rest == seq!["vu"@, "L"@]
    ||| rest == seq!["vu"@, "R"@]
    ||| rest == seq!["pan"@]
    ||| rest == seq!["mute"@]
    ||| rest == seq!["solo"@]
    ||| rest == seq!["recarm"@]
}

/// Whether the segments of an address name something that the mirror
/// takes from the DAW.
pub open spec fn path_handled(p: Seq<Seq<char>>) -> bool {
    ||| p.len() >= 1 && p[0] == "master"@ && track_path_handled(p.skip(1))
    ||| addressed_track(p) is Some && track_path_handled(p.skip(2))
    ||| p == seq!["beat"@, "str"@]
    ||| p == seq!["time"@, "str"@]
    ||| p == seq!["time"@]
    ||| p == seq!["play"@]
    ||| p == seq!["stop"@]
}

/// A message whose address names nothing that the mirror takes (such as
/// `/lastmarker/name`, `/master`, `/track/1` or `/track/1/fx/1/name`)
/// leaves the mirror as it was.
pub proof fn lemma_unhandled_message_changes_nothing(
    s: DawStateView,
    addr: Seq<char>,
    args: Seq<OscArgView>,
)
    requires
        s.tracks.len() == TRACK_COUNT,
        !path_handled(path_segments(addr)),
    ensures
        daw_after(s, addr, args) == s,
{
    let p = path_segments(addr);
    if p.len() >= 1 && p[0] == "master"@ {
        assert(track_after(s.master_track, p.skip(1), args) == s.master_track);
    } else if p.len() >= 2 && p[0] == "track"@ {
        match addressed_track(p) {
            Some(n) => {
                assert(track_after(s.tracks[n - 1], p.skip(2), args) == s.tracks[n - 1]);
                assert(s.tracks.update(n - 1, s.tracks[n - 1]) =~= s.tracks);
            },
            None => {},
        }
    }
}

/// No message from the DAW changes the effects of any track, nor whether
/// they are bypassed.
pub proof fn lemma_update_keeps_effects(s: DawStateView, addr: Seq<char>, args: Seq<OscArgView>)
    requires
        s.tracks.len() == TRACK_COUNT,
    ensures
        daw_after(s, addr, args).master_track.fx == s.master_track.fx,
        daw_after(s, addr, args).master_track.fx_bypassed == s.master_track.fx_bypassed,
        daw_after(s, addr, args).tracks.len() == TRACK_COUNT,
        forall|i: int|
            0 <= i < TRACK_COUNT ==> (#[trigger] daw_after(s, addr, args).tracks[i]).fx
                == s.tracks[i].fx && daw_after(s, addr, args).tracks[i].fx_bypassed
                == s.tracks[i].fx_bypassed,
{
}

/// A message acts through the segments of its address alone: two
/// addresses with the same non-empty segments (such as `/track/2/pan` and
/// `//track//2/pan/`) change the mirror alike.
pub proof fn lemma_update_depends_on_segments_only(
    s: DawStateView,
    addr1: Seq<char>,
    addr2: Seq<char>,
    args: Seq<OscArgView>,
)
    requires
        path_segments(addr1) == path_segments(addr2),
    ensures
        daw_after(s, addr1, args) == daw_after(s, addr2, args),
{
}

proof fn lemma_single_ne(a: Seq<char>, b: Seq<char>)
    requires
        a.len() != b.len() || a[0] != b[0],
    ensures
        seq![a] != seq![b],
{
    assert(seq![a][0] == a);
    assert(seq![b][0] == b);
}

/// The literal words of the track messages, as characters.
proof fn lemma_track_words()
    ensures
        "name"@ == seq!['n', 'a', 'm', 'e'],
        "vu"@ == seq!['v', 'u'],
        "pan"@ == seq!['p', 'a', 'n'],
        "mute"@ == seq!['m', 'u', 't', 'e'],
        "solo"@ == seq!['s', 'o', 'l', 'o'],
        "recarm"@ == seq!['r', 'e', 'c', 'a', 'r', 'm'],
{
    reveal_strlit("name");
    reveal_strlit("vu");
    reveal_strlit("pan");
    reveal_strlit("mute");
    reveal_strlit("solo");
    reveal_strlit("recarm");
}

/// A `mute` message with a float sets the mute flag to whether it is nonzero.
proof fn lemma_mute_track_after(t: TrackStateView, v: FloatBits)
    ensures
        (track_after(t, seq!["mute"@], seq![OscArgView::Float(v)]) == TrackStateView {
            mute: float_is_nonzero(v),
            ..t
        }),
{
    lemma_track_words();
    let r = seq!["mute"@];
    lemma_single_ne("mute"@, "name"@);
    lemma_single_ne("mute"@, "vu"@);
    lemma_single_ne("mute"@, "pan"@);
    assert(r != seq!["name"@]);
    assert(r.len() != seq!["volume"@, "db"@].len());
    assert(r != seq!["volume"@, "db"@]);
    assert(r != seq!["vu"@]);
    assert(r != seq!["vu"@, "L"@]);
    assert(r != seq!["vu"@, "R"@]);
    assert(r != seq!["pan"@]);
    assert(first_float(seq![OscArgView::Float(v)]) == Some(v));
}

/// A `solo` message with a float sets the solo flag to whether it is nonzero.
proof fn lemma_solo_track_after(t: TrackStateView, v: FloatBits)
    ensures
        (track_after(t, seq!["solo"@], seq![OscArgView::Float(v)]) == TrackStateView {
            solo: float_is_nonzero(v),
            ..t
        }),
{
    lemma_track_words();
    let r = seq!["solo"@];
    lemma_single_ne("solo"@, "name"@);
    lemma_single_ne("solo"@, "vu"@);
    lemma_single_ne("solo"@, "pan"@);
    lemma_single_ne("solo"@, "mute"@);
    assert(r != seq!["name"@]);
    assert(r != seq!["vu"@]);
    assert(r != seq!["pan"@]);
    assert(r != seq!["mute"@]);
    assert(r.len() != seq!["volume"@, "db"@].len());
    assert(r != seq!["volume"@, "db"@]);
    assert(r != seq!["vu"@, "L"@]);
    assert(r != seq!["vu"@, "R"@]);
    assert(first_float(seq![OscArgView::Float(v)]) == Some(v));
}

/// A `recarm` message with a float sets the record-arm flag to whether it
/// is nonzero.
proof fn lemma_recarm_track_after(t: TrackStateView, v: FloatBits)
    ensures
        (track_after(t, seq!["recarm"@], seq![OscArgView::Float(v)]) == TrackStateView {
            record_armed: float_is_nonzero(v),
            ..t
        }),
{
    lemma_track_words();
    let r = seq!["recarm"@];
    lemma_single_ne("recarm"@, "name"@);
    lemma_single_ne("recarm"@, "vu"@);
    lemma_single_ne("recarm"@, "pan"@);
    lemma_single_ne("recarm"@, "mute"@);
    lemma_single_ne("recarm"@, "solo"@);
    assert(r != seq!["name"@]);
    assert(r != seq!["vu"@]);
    assert(r != seq!["pan"@]);
    assert(r != seq!["mute"@]);
    assert(r != seq!["solo"@]);
    assert(r.len() != seq!["volume"@, "db"@].len());
    assert(r != seq!["volume"@, "db"@]);
    assert(r != seq!["vu"@, "L"@]);
    assert(r != seq!["vu"@, "R"@]);
    assert(first_float(seq![OscArgView::Float(v)]) == Some(v));
}

/// A message to `/track/<n>/<w>`, for `n` from 1 to the track count and a
/// single segment `w`, acts on track `n` alone, as the segments `[w]` say.
proof fn lemma_track_word_message(s: DawStateView, n: usize, w: Seq<char>, args: Seq<OscArgView>)
    requires
        s.tracks.len() == TRACK_COUNT,
        1 <= n <= TRACK_COUNT,
        is_segment(w),
    ensures
        (daw_after(s, "/track/"@ + decimal(n as nat) + "/"@ + w, args) == DawStateView {
            tracks: s.tracks.update(n - 1, track_after(s.tracks[n - 1], seq![w], args)),
            ..s
        }),
{
    reveal_strlit("master");
    reveal_strlit("track");
    let suffix = seq![w];
    assert(suffix.drop_first() =~= Seq::<Seq<char>>::empty());
    assert(slash_path(Seq::<Seq<char>>::empty()) =~= Seq::<char>::empty());
    assert(slash_path(suffix).drop_first() =~= w);
    lemma_track_control_path(n, suffix);
    lemma_parse_decimal(n);
    let p = seq!["track"@, decimal(n as nat)] + suffix;
    assert(p.skip(2) =~= suffix);
    assert(p[0] == "track"@);
    assert(p[0].len() != "master"@.len());
}

/// A message to `/master/<w>`, for a single segment `w`, acts on the master
/// track alone, as the segments `[w]` say.
proof fn lemma_master_word_message(s: DawStateView, w: Seq<char>, args: Seq<OscArgView>)
    requires
        is_segment(w),
    ensures
        (daw_after(s, "/master/"@ + w, args) == DawStateView {
            master_track: track_after(s.master_track, seq![w], args),
            ..s
        }),
{
    reveal_strlit("master");
    reveal_strlit("/master/");
    let m = "master"@;
    let ws = seq![m, w];
    assert(is_segment(m));
    assert forall|i: int| 0 <= i < ws.len() implies is_segment(#[trigger] ws[i]) by {}
    assert(ws.drop_first() =~= seq![w]);
    assert(seq![w].drop_first() =~= Seq::<Seq<char>>::empty());
    assert(slash_path(Seq::<Seq<char>>::empty()) =~= Seq::<char>::empty());
    assert(slash_path(seq![w]) =~= seq!['/'] + w);
    assert(slash_path(ws) =~= "/master/"@ + w);
    lemma_path_segments_of(ws);
    assert(ws.skip(1) =~= seq![w]);
}

/// `/track/<n>/mute` (for `n` from 1 to the track count) and `/master/mute`
/// with a float argument `v` mute the track exactly when `v` is not `0.0`
/// or `-0.0`, and change nothing else.
pub proof fn lemma_mute_message_sets_flag(s: DawStateView, n: usize, v: FloatBits)
    requires
        s.tracks.len() == TRACK_COUNT,
        1 <= n <= TRACK_COUNT,
    ensures
        (daw_after(s, "/track/"@ + decimal(n as nat) + "/mute"@, seq![OscArgView::Float(v)])
            == (DawStateView {
            tracks: s.tracks.update(
                n - 1,
                TrackStateView { mute: v != 0u32 && v != 0x8000_0000u32, ..s.tracks[n - 1] },
            ),
            ..s
        })),
        (daw_after(s, "/master/mute"@, seq![OscArgView::Float(v)]) == (DawStateView {
            master_track: TrackStateView {
                mute: v != 0u32 && v != 0x8000_0000u32,
                ..s.master_track
            },
            ..s
        })),
{
    reveal_strlit("/mute");
    reveal_strlit("/");
    reveal_strlit("mute");
    reveal_strlit("/master/mute");
    reveal_strlit("/master/");
    let w = "mute"@;
    assert(is_segment(w));
    assert("/mute"@ =~= "/"@ + w);
    assert("/track/"@ + decimal(n as nat) + "/mute"@ =~= "/track/"@ + decimal(n as nat) + "/"@ + w);
    assert("/master/mute"@ =~= "/master/"@ + w);
    lemma_track_word_message(s, n, w, seq![OscArgView::Float(v)]);
    lemma_master_word_message(s, w, seq![OscArgView::Float(v)]);
    lemma_mute_track_after(s.tracks[n - 1], v);
    lemma_mute_track_after(s.master_track, v);
    lemma_float_is_nonzero_bits(v);
}

/// `/track/<n>/solo` (for `n` from 1 to the track count) and `/master/solo`
/// with a float argument `v` solo the track exactly when `v` is not `0.0`
/// or `-0.0`, and change nothing else.
pub proof fn lemma_solo_message_sets_flag(s: DawStateView, n: usize, v: FloatBits)
    requires
        s.tracks.len() == TRACK_COUNT,
        1 <= n <= TRACK_COUNT,
    ensures
        (daw_after(s, "/track/"@ + decimal(n as nat) + "/solo"@, seq![OscArgView::Float(v)])
            == (DawStateView {
            tracks: s.tracks.update(
                n - 1,
                TrackStateView { solo: v != 0u32 && v != 0x8000_0000u32, ..s.tracks[n - 1] },
            ),
            ..s
        })),
        (daw_after(s, "/master/solo"@, seq![OscArgView::Float(v)]) == (DawStateView {
            master_track: TrackStateView {
                solo: v != 0u32 && v != 0x8000_0000u32,
                ..s.master_track
            },
            ..s
        })),
{
    reveal_strlit("/solo");
    reveal_strlit("/");
    reveal_strlit("solo");
    reveal_strlit("/master/solo");
    reveal_strlit("/master/");
    let w = "solo"@;
    assert(is_segment(w));
    assert("/solo"@ =~= "/"@ + w);
    assert("/track/"@ + decimal(n as nat) + "/solo"@ =~= "/track/"@ + decimal(n as nat) + "/"@ + w);
    assert("/master/solo"@ =~= "/master/"@ + w);
    lemma_track_word_message(s, n, w, seq![OscArgView::Float(v)]);
    lemma_master_word_message(s, w, seq![OscArgView::Float(v)]);
    lemma_solo_track_after(s.tracks[n - 1], v);
    lemma_solo_track_after(s.master_track, v);
    lemma_float_is_nonzero_bits(v);
}

/// `/track/<n>/recarm` (for `n` from 1 to the track count) and
/// `/master/recarm` with a float argument `v` arm the track for recording
/// exactly when `v` is not `0.0` or `-0.0`, and change nothing else.
pub proof fn lemma_recarm_message_sets_flag(s: DawStateView, n: usize, v: FloatBits)
    requires
        s.tracks.len() == TRACK_COUNT,
        1 <= n <= TRACK_COUNT,
    ensures
        (daw_after(s, "/track/"@ + decimal(n as nat) + "/recarm"@, seq![OscArgView::Float(v)])
            == (DawStateView {
            tracks: s.tracks.update(
                n - 1,
                TrackStateView {
                    record_armed: v != 0u32 && v != 0x8000_0000u32,
                    ..s.tracks[n - 1]
                },
            ),
            ..s
        })),
        (daw_after(s, "/master/recarm"@, seq![OscArgView::Float(v)]) == (DawStateView {
            master_track: TrackStateView {
                record_armed: v != 0u32 && v != 0x8000_0000u32,
                ..s.master_track
            },
            ..s
        })),
{
    reveal_strlit("/recarm");
    reveal_strlit("/");
    reveal_strlit("recarm");
    reveal_strlit("/master/recarm");
    reveal_strlit("/master/");
    let w = "recarm"@;
    assert(is_segment(w));
    assert("/recarm"@ =~= "/"@ + w);
    assert("/track/"@ + decimal(n as nat) + "/recarm"@ =~= "/track/"@ + decimal(n as nat) + "/"@
        + w);
    assert("/master/recarm"@ =~= "/master/"@ + w);
    lemma_track_word_message(s, n, w, seq![OscArgView::Float(v)]);
    lemma_master_word_message(s, w, seq![OscArgView::Float(v)]);
    lemma_recarm_track_after(s.tracks[n - 1], v);
    lemma_recarm_track_after(s.master_track, v);
    lemma_float_is_nonzero_bits(v);
}

/// A mute, solo or record-arm request goes to `/track/<n>/mute`,
/// `/track/<n>/solo` or `/track/<n>/record_arm` with the single integer
/// argument 1 when the flag is set and 0 when it is cleared.
pub proof fn lemma_flag_requests_send_one_or_zero(n: usize, b: bool)
    ensures
        osc_message_of(DawControlMessage::TrackControl(n, TrackControl::Mute(b))) == (OscMessageView {
            addr: "/track/"@ + decimal(n as nat) + "/"@ + "mute"@,
            args: seq![OscArgView::Int(if b { 1i32 } else { 0i32 })],
        }),
        osc_message_of(DawControlMessage::TrackControl(n, TrackControl::Solo(b))) == (OscMessageView {
            addr: "/track/"@ + decimal(n as nat) + "/"@ + "solo"@,
            args: seq![OscArgView::Int(if b { 1i32 } else { 0i32 })],
        }),
        osc_message_of(DawControlMessage::TrackControl(n, TrackControl::RecordArm(b))) == (OscMessageView {
            addr: "/track/"@ + decimal(n as nat) + "/"@ + "record_arm"@,
            args: seq![OscArgView::Int(if b { 1i32 } else { 0i32 })],
        }),
{
}

/// The name of a track control's variant, as `TrackControl::variant_names`
/// gives it.
pub open spec fn track_variant_name(c: TrackControl) -> Seq<char> {
    match c {
        TrackControl::Nothing => "None"@,
        TrackControl::Volume(_) => "Volume"@,
        TrackControl::Pan(_) => "Pan"@,
        TrackControl::Mute(_) => "Mute"@,
        TrackControl::Solo(_) => "Solo"@,
        TrackControl::RecordArm(_) => "RecordArm"@,
        TrackControl::Custom(_, _) => "Custom"@,
    }
}

/// The name of a transport request's variant, as
/// `PlaybackControl::variant_names` gives it.
pub open spec fn playback_variant_name(p: PlaybackControl) -> Seq<char> {
    match p {
        PlaybackControl::Nothing => "None"@,
        PlaybackControl::Play => "Play"@,
        PlaybackControl::Stop => "Stop"@,
        PlaybackControl::Pause => "Pause"@,
        PlaybackControl::Record => "Record"@,
        PlaybackControl::Rewind => "Rewind"@,
        PlaybackControl::FastForward => "FastForward"@,
        PlaybackControl::JumpToPreviousMarker => "JumpToPreviousMarker"@,
        PlaybackControl::JumpToNextMarker => "JumpToNextMarker"@,
        PlaybackControl::JumpToStart => "JumpToStart"@,
        PlaybackControl::JumpToEnd => "JumpToEnd"@,
        PlaybackControl::JumpForwardBars(_) => "JumpForwardBars"@,
        PlaybackControl::JumpBackwardBars(_) => "JumpBackwardBars"@,
    }
}

/// A track control built by name (the seven names standing for the
/// variants in declaration order) is for the track asked for and is the
/// variant whose name stands where the requested name is first found:
/// `volume` and `pan` carry the value itself, and `mute`, `solo` and
/// `record_arm` carry whether it is nonzero, so that `0.0` and `-0.0` clear
/// the flag and every other value sets it. `None` and `Custom` are refused
/// as unsupported, and a name that is not there as invalid.
pub proof fn lemma_track_control_by_name(
    names: Seq<Seq<char>>,
    track_num: usize,
    control_type: Seq<char>,
    value: FloatBits,
    r: Result<DawControlMessage, ControlError>,
)
    requires
        names.len() == 7,
        track_control_outcome(names, track_num, control_type, value, r),
    ensures
        !names.contains(control_type) ==> r matches Err(
            ControlError::InvalidTrackControlType(_),
        ),
        names.contains(control_type) ==> ({
            let i = names.index_of_first(control_type)->0;
            &&& names[i] == control_type
            &&& forall|j: int| 0 <= j < i ==> names[j] != control_type
            &&& (i == 0 || i == 6) <==> (r is Err && r->Err_0 is UnsupportedTrackControlType)
            &&& (r is Ok ==> {
                &&& r->Ok_0 matches DawControlMessage::TrackControl(n, c)
                &&& n == track_num
                &&& track_control_names()[i] == track_variant_name(c)
                &&& (c matches TrackControl::Volume(x) ==> x == value)
                &&& (c matches TrackControl::Pan(x) ==> x == value)
                &&& (c matches TrackControl::Mute(b) ==> b == (value != 0u32 && value
                    != 0x8000_0000u32))
                &&& (c matches TrackControl::Solo(b) ==> b == (value != 0u32 && value
                    != 0x8000_0000u32))
                &&& (c matches TrackControl::RecordArm(b) ==> b == (value != 0u32 && value
                    != 0x8000_0000u32))
            })
        }),
{
    names.index_of_first_ensures(control_type);
    lemma_float_is_nonzero_bits(value);
}

/// A transport request built by name (the thirteen names standing for the
/// variants in declaration order) is the variant whose name stands where the
/// requested name is first found, with its default fields: a jump by bars
/// is a jump by zero bars. A name that is not there is invalid.
pub proof fn lemma_playback_control_by_name(
    names: Seq<Seq<char>>,
    control_type: Seq<char>,
    r: Result<DawControlMessage, ControlError>,
)
    requires
        names.len() == 13,
        playback_control_outcome(names, control_type, r),
    ensures
        !names.contains(control_type) ==> r matches Err(
            ControlError::InvalidPlaybackControlType(_),
        ),
        names.contains(control_type) ==> ({
            let i = names.index_of_first(control_type)->0;
            &&& names[i] == control_type
            &&& forall|j: int| 0 <= j < i ==> names[j] != control_type
            &&& r matches Ok(DawControlMessage::PlaybackControl(p))
            &&& playback_control_names()[i] == playback_variant_name(p)
            &&& (p matches PlaybackControl::JumpForwardBars(k) ==> k == 0)
            &&& (p matches PlaybackControl::JumpBackwardBars(k) ==> k == 0)
        }),
{
    names.index_of_first_ensures(control_type);
}

/// A transport request asked for by a snake-case name is a variant whose
/// name converts to it, and no variant declared before it has a name that
/// converts to it.
pub proof fn lemma_playback_control_is_named_variant(
    control_type: Seq<char>,
    r: Result<DawControlMessage, ControlError>,
)
    requires
        playback_control_outcome(snake_names(playback_control_names()), control_type, r),
        r is Ok,
    ensures
        r matches Ok(DawControlMessage::PlaybackControl(p)) && snake_case_of(
            playback_variant_name(p),
        ) == control_type,
{
    let names = snake_names(playback_control_names());
    names.index_of_first_ensures(control_type);
    if !names.contains(control_type) {
        assert(names.index_of_first(control_type) is None);
    }
    lemma_playback_control_by_name(names, control_type, r);
}

/// A track control asked for by a snake-case name is, where it is built, a
/// variant whose name converts to it.
pub proof fn lemma_track_control_is_named_variant(
    track_num: usize,
    control_type: Seq<char>,
    value: FloatBits,
    r: Result<DawControlMessage, ControlError>,
)
    requires
        track_control_outcome(
            snake_names(track_control_names()),
            track_num,
            control_type,
            value,
            r,
        ),
        r is Ok,
    ensures
        r matches Ok(DawControlMessage::TrackControl(n, c)) && n == track_num && snake_case_of(
            track_variant_name(c),
        ) == control_type,
{
    let names = snake_names(track_control_names());
    names.index_of_first_ensures(control_type);
    lemma_track_control_by_name(names, track_num, control_type, value, r);
}

/// A message to `/track/<n>/` followed by the segments `suffix`, for `n`
/// from 1 to the track count, acts on track `n` alone, as `suffix` says.
proof fn lemma_track_suffix_message(
    s: DawStateView,
    n: usize,
    suffix: Seq<Seq<char>>,
    args: Seq<OscArgView>,
)
    requires
        s.tracks.len() == TRACK_COUNT,
        1 <= n <= TRACK_COUNT,
        suffix.len() > 0,
        forall|i: int| 0 <= i < suffix.len() ==> is_segment(#[trigger] suffix[i]),
    ensures
        (daw_after(s, "/track/"@ + decimal(n as nat) + "/"@ + slash_path(suffix).drop_first(), args)
            == DawStateView {
            tracks: s.tracks.update(n - 1, track_after(s.tracks[n - 1], suffix, args)),
            ..s
        }),
{
    reveal_strlit("master");
    reveal_strlit("track");
    lemma_track_control_path(n, suffix);
    lemma_parse_decimal(n);
    let p = seq!["track"@, decimal(n as nat)] + suffix;
    assert(p.skip(2) =~= suffix);
    assert(p[0] == "track"@);
    assert(p[0].len() != "master"@.len());
}

/// The segments of `/w0` and of `/w0/w1`.
proof fn lemma_one_two_segments(w0: Seq<char>, w1: Seq<char>)
    requires
        is_segment(w0),
        is_segment(w1),
    ensures
        path_segments(seq!['/'] + w0) == seq![w0],
        path_segments(seq!['/'] + w0 + seq!['/'] + w1) == seq![w0, w1],
{
    let one = seq![w0];
    let two = seq![w0, w1];
    assert forall|i: int| 0 <= i < one.len() implies is_segment(#[trigger] one[i]) by {}
    assert forall|i: int| 0 <= i < two.len() implies is_segment(#[trigger] two[i]) by {}
    assert(one.drop_first() =~= Seq::<Seq<char>>::empty());
    assert(two.drop_first() =~= seq![w1]);
    assert(seq![w1].drop_first() =~= Seq::<Seq<char>>::empty());
    assert(slash_path(Seq::<Seq<char>>::empty()) =~= Seq::<char>::empty());
    assert(slash_path(one) =~= seq!['/'] + w0);
    assert(slash_path(seq![w1]) =~= seq!['/'] + w1);
    assert(slash_path(two) =~= seq!['/'] + w0 + seq!['/'] + w1);
    lemma_path_segments_of(one);
    lemma_path_segments_of(two);
}

/// The transport messages from the DAW: `/play` and `/stop` set whether the
/// transport runs, whatever their arguments; `/time` with a float sets the
/// position in seconds; `/time/str` and `/beat/str` with a string set the
/// position as text. Nothing else changes.
pub proof fn lemma_transport_messages(
    s: DawStateView,
    args: Seq<OscArgView>,
    v: FloatBits,
    text: Seq<char>,
)
    ensures
        daw_after(s, "/play"@, args) == (DawStateView {
            play_state: PlayStateView { is_playing: true, ..s.play_state },
            ..s
        }),
        daw_after(s, "/stop"@, args) == (DawStateView {
            play_state: PlayStateView { is_playing: false, ..s.play_state },
            ..s
        }),
        daw_after(s, "/time"@, seq![OscArgView::Float(v)]) == (DawStateView {
            play_state: PlayStateView { time_seconds: v, ..s.play_state },
            ..s
        }),
        daw_after(s, "/time/str"@, seq![OscArgView::String(text)]) == (DawStateView {
            play_state: PlayStateView { time_str: text, ..s.play_state },
            ..s
        }),
        daw_after(s, "/beat/str"@, seq![OscArgView::String(text)]) == (DawStateView {
            play_state: PlayStateView { beats_str: text, ..s.play_state },
            ..s
        }),
{
    reveal_strlit("/play");
    reveal_strlit("/stop");
    reveal_strlit("/time");
    reveal_strlit("/time/str");
    reveal_strlit("/beat/str");
    reveal_strlit("play");
    reveal_strlit("stop");
    reveal_strlit("time");
    reveal_strlit("beat");
    reveal_strlit("str");
    reveal_strlit("master");
    reveal_strlit("track");
    let (play, stop, time, beat, st) = ("play"@, "stop"@, "time"@, "beat"@, "str"@);
    assert(is_segment(play) && is_segment(stop) && is_segment(time) && is_segment(beat)
        && is_segment(st));
    lemma_one_two_segments(play, st);
    lemma_one_two_segments(stop, st);
    lemma_one_two_segments(time, st);
    lemma_one_two_segments(beat, st);
    assert("/play"@ =~= seq!['/'] + play);
    assert("/stop"@ =~= seq!['/'] + stop);
    assert("/time"@ =~= seq!['/'] + time);
    assert("/time/str"@ =~= seq!['/'] + time + seq!['/'] + st);
    assert("/beat/str"@ =~= seq!['/'] + beat + seq!['/'] + st);
    lemma_single_ne(play, time);
    lemma_single_ne(stop, time);
    lemma_single_ne(stop, play);
    assert(seq![time, st] != seq![beat, st]) by {
        assert(seq![time, st][0] == time);
        assert(seq![beat, st][0] == beat);
    }
    assert(first_float(seq![OscArgView::Float(v)]) == Some(v));
    assert(first_string(seq![OscArgView::String(text)]) == Some(text));
}

/// A track's name, meters and pan come from the messages addressed to it
/// (`/track/<n>/...` for `n` from 1 to the track count): `name` with a
/// string sets the name, `vu` with a float the combined meter, `vu/L` and
/// `vu/R` the left and right meters, `pan` the pan position. Nothing else
/// changes.
pub proof fn lemma_track_value_messages(
    s: DawStateView,
    n: usize,
    v: FloatBits,
    text: Seq<char>,
)
    requires
        s.tracks.len() == TRACK_COUNT,
        1 <= n <= TRACK_COUNT,
    ensures
        daw_after(s, "/track/"@ + decimal(n as nat) + "/name"@, seq![OscArgView::String(text)])
            == (DawStateView {
            tracks: s.tracks.update(n - 1, TrackStateView { name: text, ..s.tracks[n - 1] }),
            ..s
        }),
        daw_after(s, "/track/"@ + decimal(n as nat) + "/vu"@, seq![OscArgView::Float(v)]) == (
        DawStateView {
            tracks: s.tracks.update(n - 1, TrackStateView { vu_lr: v, ..s.tracks[n - 1] }),
            ..s
        }),
        daw_after(s, "/track/"@ + decimal(n as nat) + "/vu/L"@, seq![OscArgView::Float(v)])
            == (DawStateView {
            tracks: s.tracks.update(n - 1, TrackStateView { vu_l: v, ..s.tracks[n - 1] }),
            ..s
        }),
        daw_after(s, "/track/"@ + decimal(n as nat) + "/vu/R"@, seq![OscArgView::Float(v)])
            == (DawStateView {
            tracks: s.tracks.update(n - 1, TrackStateView { vu_r: v, ..s.tracks[n - 1] }),
            ..s
        }),
        daw_after(s, "/track/"@ + decimal(n as nat) + "/pan"@, seq![OscArgView::Float(v)]) == (
        DawStateView {
            tracks: s.tracks.update(n - 1, TrackStateView { pan: v, ..s.tracks[n - 1] }),
            ..s
        }),
{
    reveal_strlit("/name");
    reveal_strlit("/vu");
    reveal_strlit("/vu/L");
    reveal_strlit("/vu/R");
    reveal_strlit("/pan");
    reveal_strlit("/");
    reveal_strlit("name");
    reveal_strlit("volume");
    reveal_strlit("vu");
    reveal_strlit("L");
    reveal_strlit("R");
    reveal_strlit("pan");
    let d = "/track/"@ + decimal(n as nat);
    let fl = seq![OscArgView::Float(v)];
    assert(first_float(fl) == Some(v));
    assert(first_string(seq![OscArgView::String(text)]) == Some(text));
    // single words
    let (name, vu, pan) = ("name"@, "vu"@, "pan"@);
    assert(is_segment(name) && is_segment(vu) && is_segment(pan));
    assert(d + "/name"@ =~= d + "/"@ + name);
    assert(d + "/vu"@ =~= d + "/"@ + vu);
    assert(d + "/pan"@ =~= d + "/"@ + pan);
    lemma_track_word_message(s, n, name, seq![OscArgView::String(text)]);
    lemma_track_word_message(s, n, vu, fl);
    lemma_track_word_message(s, n, pan, fl);
    lemma_single_ne(vu, name);
    lemma_single_ne(pan, name);
    lemma_single_ne(pan, vu);
    assert(seq![vu].len() != seq!["volume"@, "db"@].len());
    assert(seq![pan].len() != seq!["volume"@, "db"@].len());
    assert(seq![pan].len() != seq!["vu"@, "L"@].len());
    assert(seq![pan].len() != seq!["vu"@, "R"@].len());
    assert(seq![vu].len() != seq!["vu"@, "L"@].len());
    // two words
    let (l, r) = ("L"@, "R"@);
    assert(is_segment(l) && is_segment(r));
    let vl = seq![vu, l];
    let vr = seq![vu, r];
    assert forall|i: int| 0 <= i < vl.len() implies is_segment(#[trigger] vl[i]) by {}
    assert forall|i: int| 0 <= i < vr.len() implies is_segment(#[trigger] vr[i]) by {}
    assert(vl.drop_first() =~= seq![l]);
    assert(vr.drop_first() =~= seq![r]);
    assert(seq![l].drop_first() =~= Seq::<Seq<char>>::empty());
    assert(seq![r].drop_first() =~= Seq::<Seq<char>>::empty());
    assert(slash_path(Seq::<Seq<char>>::empty()) =~= Seq::<char>::empty());
    assert(slash_path(seq![l]) =~= seq!['/'] + l);
    assert(slash_path(vl) =~= seq!['/'] + vu + (seq!['/'] + l));
    assert(slash_path(vl).drop_first() =~= "vu/L"@) by {
        reveal_strlit("vu/L");
    }
    assert(slash_path(seq![r]) =~= seq!['/'] + r);
    assert(slash_path(vr) =~= seq!['/'] + vu + (seq!['/'] + r));
    assert(slash_path(vr).drop_first() =~= "vu/R"@) by {
        reveal_strlit("vu/R");
    }
    assert(d + "/vu/L"@ =~= d + "/"@ + "vu/L"@) by {
        reveal_strlit("vu/L");
    }
    assert(d + "/vu/R"@ =~= d + "/"@ + "vu/R"@) by {
        reveal_strlit("vu/R");
    }
    lemma_track_suffix_message(s, n, vl, fl);
    lemma_track_suffix_message(s, n, vr, fl);
    assert(vl.len() != seq![name].len());
    assert(vl != seq!["volume"@, "db"@]) by {
        assert(vl[0] != "volume"@);
    }
    assert(vr != seq!["volume"@, "db"@]) by {
        assert(vr[0] != "volume"@);
    }
    assert(vr != vl) by {
        assert(vr[1] == r && vl[1] == l);
        assert(r[0] != l[0]);
    }
}

/// `Play` is sent to `/play` and `Stop` to `/stop`, both without arguments;
/// the other transport requests have no OSC form and give an empty address
/// with no arguments; a custom request is sent with its own address and
/// arguments.
pub proof fn lemma_requests_sent_as(p: PlaybackControl, addr: String, args: Vec<OscArg>)
    ensures
        osc_message_of(DawControlMessage::PlaybackControl(PlaybackControl::Play)) == (
        OscMessageView { addr: "/play"@, args: Seq::empty() }),
        osc_message_of(DawControlMessage::PlaybackControl(PlaybackControl::Stop)) == (
        OscMessageView { addr: "/stop"@, args: Seq::empty() }),
        !(p is Play) && !(p is Stop) ==> osc_message_of(DawControlMessage::PlaybackControl(p)) == (
        OscMessageView { addr: Seq::empty(), args: Seq::empty() }),
        osc_message_of(DawControlMessage::Custom(addr, args)) == (OscMessageView {
            addr: addr@,
            args: args_view(args@),
        }),
        osc_message_of(DawControlMessage::Nothing) == (OscMessageView {
            addr: Seq::empty(),
            args: Seq::empty(),
        }),
{
}

} // verus!
