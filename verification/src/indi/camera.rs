//! Camera (CCD) control: connection, video streaming, and exposure/gain.

use crate::indi;
use crate::indi::mount;
use crate::indi::mount::{sort_options, SwitchOption};
use crate::indi::{
    change_one, find_number, find_switch, find_text, Change, NumberElement, ReadError, Reading,
    Setting, SettingView, SwitchElement,
};
use crate::scalar::Scalar;
use crate::text;
use vstd::prelude::*;

verus! {

/// A CCD device and the operations on it.
pub struct Camera<D> {
    /// Underlying device handle; the worker uses it directly to subscribe to CCD1 frames.
    pub dev: D,
}

/// Read a `CCD_FRAME`-shaped number vector (`X`/`Y`/`WIDTH`/`HEIGHT`) as `(x, y, w, h)`; absent if
/// the property is absent, not a number vector, lacks a side, or has a side of zero.
pub open spec fn frame_prop(reading: Option<Reading>) -> Option<(u32, u32, u32, u32)> {
    match reading {
        Some(Reading::Numbers(elems)) => match (
            indi::number_named(elems@, "WIDTH"@),
            indi::number_named(elems@, "HEIGHT"@),
        ) {
            (Some(w), Some(h)) => if w.whole == 0 || h.whole == 0 {
                None
            } else {
                Some((whole_or_zero(elems@, "X"@), whole_or_zero(elems@, "Y"@), w.whole, h.whole))
            },
            _ => None,
        },
        _ => None,
    }
}

/// The whole value of a number element, zero where there is none.
pub open spec fn whole_or_zero(elems: Seq<NumberElement>, name: Seq<char>) -> u32 {
    match indi::number_named(elems, name) {
        Some(e) => e.whole,
        None => 0,
    }
}

/// An optional reading by value.
pub open spec fn by_value(reading: Option<&Reading>) -> Option<Reading> {
    match reading {
        Some(r) => Some(*r),
        None => None,
    }
}

impl<D> Camera<D> {
    pub fn new(dev: D) -> (c: Self)
        ensures
            c.dev == dev,
    {
        Camera { dev }
    }

    /// Connect the device; then prefer the MJPEG encoder, whose frames are the simplest to decode.
    /// The second change may fail: some drivers lack it.
    pub fn connect(&self) -> (r: (Change, Change))
        ensures
            r.0@ == indi::one("CONNECTION"@, "CONNECT"@, SettingView::Switch(true), true),
            r.1@ == indi::one("CCD_STREAM_ENCODER"@, "MJPEG"@, SettingView::Switch(true), true),
    {
        (
            change_one("CONNECTION", "CONNECT", Setting::Switch(true), true),
            change_one("CCD_STREAM_ENCODER", "MJPEG", Setting::Switch(true), true),
        )
    }

    /// Turn on `elem` in the switch vector `prop`. Used to drive the driver's stream-format
    /// switches.
    pub fn set_switch(&self, prop: &str, elem: &str) -> (c: Change)
        ensures
            c@ == indi::one(prop@, elem@, SettingView::Switch(true), true),
    {
        change_one(prop, elem, Setting::Switch(true), true)
    }

    /// Turn the video stream on. It stays busy while it runs, so this is not waited for.
    pub fn start_stream(&self) -> (c: Change)
        ensures
            c@ == indi::one("CCD_VIDEO_STREAM"@, "STREAM_ON"@, SettingView::Switch(true), false),
    {
        change_one("CCD_VIDEO_STREAM", "STREAM_ON", Setting::Switch(true), false)
    }

    /// Turn the video stream off.
    pub fn stop_stream(&self) -> (c: Change)
        ensures
            c@ == indi::one("CCD_VIDEO_STREAM"@, "STREAM_OFF"@, SettingView::Switch(true), false),
    {
        change_one("CCD_VIDEO_STREAM", "STREAM_OFF", Setting::Switch(true), false)
    }

    pub fn set_gain(&self, gain: Scalar) -> (c: Change)
        ensures
            c@ == indi::one("CCD_GAIN"@, "GAIN"@, SettingView::Number(gain), true),
    {
        change_one("CCD_GAIN", "GAIN", Setting::Number(gain), true)
    }

    /// Set the still-frame exposure in seconds (`CCD_EXPOSURE`).
    pub fn set_exposure(&self, seconds: Scalar) -> (c: Change)
        ensures
            c@ == indi::one(
                "CCD_EXPOSURE"@,
                "CCD_EXPOSURE_VALUE"@,
                SettingView::Number(seconds),
                true,
            ),
    {
        change_one("CCD_EXPOSURE", "CCD_EXPOSURE_VALUE", Setting::Number(seconds), true)
    }

    /// Set the **live-stream** frame exposure (`STREAMING_EXPOSURE`), which governs the stream
    /// frame rate on cameras that separate it from the still exposure.
    pub fn set_streaming_exposure(&self, seconds: Scalar) -> (c: Change)
        ensures
            c@ == indi::one(
                "STREAMING_EXPOSURE"@,
                "STREAMING_EXPOSURE_VALUE"@,
                SettingView::Number(seconds),
                true,
            ),
    {
        change_one("STREAMING_EXPOSURE", "STREAMING_EXPOSURE_VALUE", Setting::Number(seconds), true)
    }

    /// Set the driver's frame-count budget. Sends **only** this element: together with its sibling
    /// drivers reject the whole vector as out of range.
    pub fn set_record_frame_total(&self, frames: u64) -> (c: Change)
        ensures
            c@ == indi::one(
                "RECORD_OPTIONS"@,
                "RECORD_FRAME_TOTAL"@,
                SettingView::Count(frames),
                true,
            ),
    {
        change_one("RECORD_OPTIONS", "RECORD_FRAME_TOTAL", Setting::Count(frames), true)
    }

    /// Set the driver's duration budget in seconds. Sends only this element.
    pub fn set_record_duration(&self, seconds: Scalar) -> (c: Change)
        ensures
            c@ == indi::one(
                "RECORD_OPTIONS"@,
                "RECORD_DURATION"@,
                SettingView::Number(seconds),
                true,
            ),
    {
        change_one("RECORD_OPTIONS", "RECORD_DURATION", Setting::Number(seconds), true)
    }

    /// Set where the driver writes the recording (`RECORD_FILE`). The path is on the **indiserver
    /// host**, not the client.
    pub fn set_record_file(&self, dir: &str, name: &str) -> (c: Change)
        ensures
            c@.prop == "RECORD_FILE"@,
            c@.elems == seq![
                ("RECORD_FILE_DIR"@, SettingView::Text(dir@)),
                ("RECORD_FILE_NAME"@, SettingView::Text(name@)),
            ],
            c@.wait,
    {
        let mut elems: Vec<(String, Setting)> = Vec::new();
        elems.push(("RECORD_FILE_DIR".to_owned(), Setting::Text(dir.to_owned())));
        elems.push(("RECORD_FILE_NAME".to_owned(), Setting::Text(name.to_owned())));
        let c = Change { prop: "RECORD_FILE".to_owned(), elems, wait: true };
        proof {
            assert(c@.elems =~= seq![
                ("RECORD_FILE_DIR"@, SettingView::Text(dir@)),
                ("RECORD_FILE_NAME"@, SettingView::Text(name@)),
            ]);
        }
        c
    }

    /// Start a frame-count-limited driver recording. It stays busy while it runs, so this is not
    /// waited for.
    pub fn record_start_frames(&self) -> (c: Change)
        ensures
            c@ == indi::one("RECORD_STREAM"@, "RECORD_FRAME_ON"@, SettingView::Switch(true), false),
    {
        change_one("RECORD_STREAM", "RECORD_FRAME_ON", Setting::Switch(true), false)
    }

    /// Start a duration-limited driver recording.
    pub fn record_start_duration(&self) -> (c: Change)
        ensures
            c@ == indi::one(
                "RECORD_STREAM"@,
                "RECORD_DURATION_ON"@,
                SettingView::Switch(true),
                false,
            ),
    {
        change_one("RECORD_STREAM", "RECORD_DURATION_ON", Setting::Switch(true), false)
    }

    /// Stop the driver recording.
    pub fn record_stop(&self) -> (c: Change)
        ensures
            c@ == indi::one("RECORD_STREAM"@, "RECORD_OFF"@, SettingView::Switch(true), false),
    {
        change_one("RECORD_STREAM", "RECORD_OFF", Setting::Switch(true), false)
    }

    /// Set the CCD readout region (subframe / ROI) via `CCD_FRAME`, in sensor pixels. All four
    /// elements are sent together so the driver applies a consistent rectangle.
    pub fn set_frame(&self, x: u32, y: u32, w: u32, h: u32) -> (c: Change)
        ensures
            c@.prop == "CCD_FRAME"@,
            c@.elems == seq![
                ("X"@, SettingView::Count(x as u64)),
                ("Y"@, SettingView::Count(y as u64)),
                ("WIDTH"@, SettingView::Count(w as u64)),
                ("HEIGHT"@, SettingView::Count(h as u64)),
            ],
            c@.wait,
    {
        let mut elems: Vec<(String, Setting)> = Vec::new();
        elems.push(("X".to_owned(), Setting::Count(x as u64)));
        elems.push(("Y".to_owned(), Setting::Count(y as u64)));
        elems.push(("WIDTH".to_owned(), Setting::Count(w as u64)));
        elems.push(("HEIGHT".to_owned(), Setting::Count(h as u64)));
        let c = Change { prop: "CCD_FRAME".to_owned(), elems, wait: true };
        proof {
            assert(c@.elems =~= seq![
                ("X"@, SettingView::Count(x as u64)),
                ("Y"@, SettingView::Count(y as u64)),
                ("WIDTH"@, SettingView::Count(w as u64)),
                ("HEIGHT"@, SettingView::Count(h as u64)),
            ]);
        }
        c
    }

    /// Set symmetric binning via `CCD_BINNING`.
    pub fn set_binning(&self, bin: u32) -> (c: Change)
        ensures
            c@.prop == "CCD_BINNING"@,
            c@.elems == seq![
                ("HOR_BIN"@, SettingView::Count(bin as u64)),
                ("VER_BIN"@, SettingView::Count(bin as u64)),
            ],
            c@.wait,
    {
        let mut elems: Vec<(String, Setting)> = Vec::new();
        elems.push(("HOR_BIN".to_owned(), Setting::Count(bin as u64)));
        elems.push(("VER_BIN".to_owned(), Setting::Count(bin as u64)));
        let c = Change { prop: "CCD_BINNING".to_owned(), elems, wait: true };
        proof {
            assert(c@.elems =~= seq![
                ("HOR_BIN"@, SettingView::Count(bin as u64)),
                ("VER_BIN"@, SettingView::Count(bin as u64)),
            ]);
        }
        c
    }

    /// From a reading of `RECORD_STREAM`, whether the driver is currently recording: while
    /// `RECORD_OFF` is off. `false` if the property is absent or unreadable.
    pub fn record_is_running(&self, reading: Option<&Reading>) -> (b: bool)
        ensures
            b == (reading matches Some(Reading::Switches(elems)) && (indi::switch_named(
                elems@,
                "RECORD_OFF"@,
            ) matches Some(e) && !e.on)),
    {
        match reading {
            Some(Reading::Switches(elems)) => match find_switch(elems, "RECORD_OFF") {
                Some(e) => !e.on,
                None => false,
            },
            _ => false,
        }
    }

    /// From a reading of `LIMITS`, raise the driver's client preview-FPS cap
    /// (`LIMITS_PREVIEW_FPS`) to its own advertised maximum, so every captured frame is delivered.
    pub fn set_preview_fps_limit_to_max(&self, reading: Option<&Reading>) -> (r: Result<
        Change,
        ReadError,
    >)
        ensures
            match r {
                Ok(c) => {
                    &&& reading matches Some(Reading::Numbers(elems))
                    &&& indi::number_named(elems@, "LIMITS_PREVIEW_FPS"@) matches Some(e)
                    &&& c@ == indi::one(
                        "LIMITS"@,
                        "LIMITS_PREVIEW_FPS"@,
                        SettingView::Number(e.max),
                        true,
                    )
                },
                Err(e) => e == if reading is None {
                    ReadError::Absent
                } else {
                    ReadError::NoElement
                },
            },
            r is Err ==> (reading matches Some(Reading::Numbers(elems)) ==> indi::number_named(
                elems@,
                "LIMITS_PREVIEW_FPS"@,
            ) is None),
    {
        match reading {
            None => Err(ReadError::Absent),
            Some(Reading::Numbers(elems)) => match find_number(elems, "LIMITS_PREVIEW_FPS") {
                Some(e) => Ok(
                    change_one("LIMITS", "LIMITS_PREVIEW_FPS", Setting::Number(e.max), true),
                ),
                None => Err(ReadError::NoElement),
            },
            Some(_) => Err(ReadError::NoElement),
        }
    }

    /// From a reading of a switch vector, its element names (sorted) and the currently-selected
    /// one. Used to populate the encoder / capture-format pickers. Empty if the driver lacks the
    /// property.
    pub fn switch_options(&self, reading: Option<&Reading>) -> (r: (Vec<String>, Option<String>))
        ensures
            match reading {
                Some(Reading::Switches(elems)) => {
                    &&& sorted_names(r.0@, elems@)
                    &&& match r.1 {
                        Some(name) => exists|i: int| #[trigger]
                            first_on(elems@, i) && name@ == elems@[i].name@,
                        None => forall|i: int| 0 <= i < elems@.len() ==> !(#[trigger] elems@[i]).on,
                    }
                },
                _ => r.0@.len() == 0 && r.1 is None,
            },
    {
        match reading {
            Some(Reading::Switches(elems)) => {
                let mut opts: Vec<SwitchOption> = Vec::new();
                let mut i: usize = 0;
                while i < elems.len()
                    invariant
                        i <= elems.len(),
                        opts@.len() == i,
                        forall|k: int|
                            0 <= k < i ==> (#[trigger] opts@[k]).label@ == elems@[k].name@
                                && opts@[k].number is None,
                    decreases elems.len() - i,
                {
                    let e: &SwitchElement = &elems[i];
                    opts.push(
                        SwitchOption {
                            name: e.name.clone(),
                            label: e.name.clone(),
                            on: e.on,
                            number: None,
                        },
                    );
                    i += 1;
                }
                let order: Vec<usize> = sort_options(&opts);
                let mut names: Vec<String> = Vec::new();
                let mut j: usize = 0;
                while j < order.len()
                    invariant
                        j <= order.len(),
                        order@.len() == elems@.len(),
                        forall|k: int|
                            0 <= k < order@.len() ==> (#[trigger] order@[k]) < elems@.len(),
                        names@.len() == j,
                        forall|k: int|
                            0 <= k < j ==> (#[trigger] names@[k])@ == elems@[order@[k] as int].name@,
                    decreases order.len() - j,
                {
                    names.push(elems[order[j]].name.clone());
                    j += 1;
                }
                proof {
                    lemma_sorted_names(names@, elems@, opts@, order@);
                }
                let mut selected: Option<String> = None;
                let mut k: usize = 0;
                while k < elems.len()
                    invariant
                        k <= elems.len(),
                        match selected {
                            Some(name) => exists|i: int| #[trigger]
                                first_on(elems@, i) && name@ == elems@[i].name@,
                            None => forall|i: int| 0 <= i < k ==> !(#[trigger] elems@[i]).on,
                        },
                    decreases elems.len() - k,
                {
                    if elems[k].on && selected.is_none() {
                        assert(first_on(elems@, k as int));
                        selected = Some(elems[k].name.clone());
                    }
                    k += 1;
                }
                (names, selected)
            },
            _ => (Vec::new(), None),
        }
    }

    /// From readings of `CCD_STREAM_FRAME` and `CCD_FRAME`, the readout region the driver actually
    /// applied, as `(x, y, w, h)`. Drivers snap the requested size to hardware alignment: the
    /// actual size is the streamed one, while the sensor offset comes from `CCD_FRAME`. Falls back
    /// to whichever is available.
    pub fn read_applied_roi(&self, stream: Option<&Reading>, frame: Option<&Reading>) -> (r: Option<
        (u32, u32, u32, u32),
    >)
        ensures
            r == (match (frame_prop(by_value(stream)), frame_prop(by_value(frame))) {
                (Some(s), Some(f)) => Some((f.0, f.1, s.2, s.3)),
                (Some(s), None) => Some(s),
                (None, Some(f)) => Some(f),
                (None, None) => None,
            }),
    {
        match (Self::read_frame_prop(stream), Self::read_frame_prop(frame)) {
            (Some(s), Some(f)) => Some((f.0, f.1, s.2, s.3)),
            (Some(s), None) => Some(s),
            (None, Some(f)) => Some(f),
            (None, None) => None,
        }
    }

    /// From a reading of a `CCD_FRAME`-shaped number vector, the region `(x, y, w, h)`.
    fn read_frame_prop(reading: Option<&Reading>) -> (r: Option<(u32, u32, u32, u32)>)
        ensures
            r == frame_prop(by_value(reading)),
    {
        match reading {
            Some(Reading::Numbers(elems)) => {
                match (find_number(elems, "WIDTH"), find_number(elems, "HEIGHT")) {
                    (Some(w), Some(h)) => {
                        if w.whole == 0 || h.whole == 0 {
                            return None;
                        }
                        let x: u32 = match find_number(elems, "X") {
                            Some(e) => e.whole,
                            None => 0,
                        };
                        let y: u32 = match find_number(elems, "Y") {
                            Some(e) => e.whole,
                            None => 0,
                        };
                        Some((x, y, w.whole, h.whole))
                    },
                    _ => None,
                }
            },
            _ => None,
        }
    }

    /// From a reading of a number vector, one element as `(value, min, max)` in its native units.
    /// `None` if the property or element is absent, or the property is not a number vector.
    pub fn number_range(&self, reading: Option<&Reading>, elem: &str) -> (r: Option<
        (Scalar, Scalar, Scalar),
    >)
        ensures
            r == (match reading {
                Some(Reading::Numbers(elems)) => match indi::number_named(elems@, elem@) {
                    Some(e) => Some((e.value, e.min, e.max)),
                    None => None,
                },
                _ => None,
            }),
    {
        match reading {
            Some(Reading::Numbers(elems)) => match find_number(elems, elem) {
                Some(e) => Some((e.value, e.min, e.max)),
                None => None,
            },
            _ => None,
        }
    }

    /// From a reading of `FPS`, the driver's own streaming frame-rate estimate. Prefers `AVG_FPS`
    /// (a rolling average, which is steady) and falls back to the instantaneous `EST_FPS`.
    pub fn stream_fps(&self, reading: Option<&Reading>) -> (r: Option<Scalar>)
        ensures
            r == (match reading {
                Some(Reading::Numbers(elems)) => match indi::number_named(elems@, "AVG_FPS"@) {
                    Some(e) => Some(e.value),
                    None => match indi::number_named(elems@, "EST_FPS"@) {
                        Some(e) => Some(e.value),
                        None => None,
                    },
                },
                _ => None,
            }),
    {
        match reading {
            Some(Reading::Numbers(elems)) => match find_number(elems, "AVG_FPS") {
                Some(e) => Some(e.value),
                None => match find_number(elems, "EST_FPS") {
                    Some(e) => Some(e.value),
                    None => None,
                },
            },
            _ => None,
        }
    }

    /// From a reading of `CCD_INFO`, the full sensor size in pixels.
    pub fn sensor_size(&self, reading: Option<&Reading>) -> (r: Result<(u32, u32), ReadError>)
        ensures
            r == (match reading {
                None => Err::<(u32, u32), ReadError>(ReadError::Absent),
                Some(Reading::Numbers(elems)) => match (
                    indi::number_named(elems@, "CCD_MAX_X"@),
                    indi::number_named(elems@, "CCD_MAX_Y"@),
                ) {
                    (Some(w), Some(h)) => Ok((w.whole, h.whole)),
                    _ => Err(ReadError::NoElement),
                },
                Some(_) => Err(ReadError::WrongKind),
            }),
    {
        match reading {
            None => Err(ReadError::Absent),
            Some(Reading::Numbers(elems)) => match (
                find_number(elems, "CCD_MAX_X"),
                find_number(elems, "CCD_MAX_Y"),
            ) {
                (Some(w), Some(h)) => Ok((w.whole, h.whole)),
                _ => Err(ReadError::NoElement),
            },
            Some(_) => Err(ReadError::WrongKind),
        }
    }

    /// From a reading of `CCD_CFA`, the Bayer pattern (`CFA_TYPE`); mono cameras report none.
    pub fn cfa(&self, reading: Option<&Reading>) -> (r: Option<String>)
        ensures
            match reading {
                Some(Reading::Texts(elems)) => match indi::text_named(elems@, "CFA_TYPE"@) {
                    Some(e) => r == Some(e.value),
                    None => r is None,
                },
                _ => r is None,
            },
    {
        match reading {
            Some(Reading::Texts(elems)) => match find_text(elems, "CFA_TYPE") {
                Some(e) => Some(e.value.clone()),
                None => None,
            },
            _ => None,
        }
    }
}

/// Element `i` is the first that is on.
pub open spec fn first_on(elems: Seq<SwitchElement>, i: int) -> bool {
    &&& 0 <= i < elems.len()
    &&& elems[i].on
    &&& forall|j: int| 0 <= j < i ==> !(#[trigger] elems[j]).on
}

/// `names` are the names of the elements, each once, in the order of texts.
pub open spec fn sorted_names(names: Seq<String>, elems: Seq<SwitchElement>) -> bool {
    &&& names.len() == elems.len()
    &&& exists|order: Seq<usize>| #[trigger] picks(names, elems, order)
    &&& forall|i: int, j: int|
        0 <= i < j < names.len() ==> !text::before(
            (#[trigger] names[j])@,
            (#[trigger] names[i])@,
        )
}

/// `names` are the names of the elements in the given order.
pub open spec fn picks(names: Seq<String>, elems: Seq<SwitchElement>, order: Seq<usize>) -> bool {
    &&& mount::lists_all(order, elems.len())
    &&& forall|k: int|
        0 <= k < elems.len() ==> (#[trigger] names[k])@ == elems[order[k] as int].name@
}

proof fn lemma_sorted_names(
    names: Seq<String>,
    elems: Seq<SwitchElement>,
    opts: Seq<SwitchOption>,
    order: Seq<usize>,
)
    requires
        names.len() == elems.len(),
        opts.len() == elems.len(),
        order.len() == elems.len(),
        mount::slow_to_fast(opts, order),
        forall|k: int| 0 <= k < elems.len() ==> (#[trigger] opts[k]).label@ == elems[k].name@
            && opts[k].number is None,
        forall|k: int| 0 <= k < elems.len() ==> (#[trigger] names[k])@ == elems[order[k] as int].name@,
    ensures
        sorted_names(names, elems),
{
    assert(picks(names, elems, order));
    assert forall|i: int, j: int| 0 <= i < j < names.len() implies !text::before(
        (#[trigger] names[j])@,
        (#[trigger] names[i])@,
    ) by {
        let a = opts[order[i] as int];
        let b = opts[order[j] as int];
        assert(!b.slower(&a));
    }
}

/// A readout region is read from the elements of its four names, `X` and `Y` counting zero where they
/// are absent; without a width and a height above zero there is none.
pub proof fn law_region_is_read_by_name(elems: Vec<NumberElement>)
    ensures
        ({
            let w = indi::number_named(elems@, "WIDTH"@);
            let h = indi::number_named(elems@, "HEIGHT"@);
            let x = indi::number_named(elems@, "X"@);
            let y = indi::number_named(elems@, "Y"@);
            match frame_prop(Some(Reading::Numbers(elems))) {
                Some(r) => {
                    &&& w matches Some(e) && e.whole == r.2 && r.2 > 0
                    &&& h matches Some(e) && e.whole == r.3 && r.3 > 0
                    &&& r.0 == if x is Some {
                        x->0.whole
                    } else {
                        0
                    }
                    &&& r.1 == if y is Some {
                        y->0.whole
                    } else {
                        0
                    }
                },
                None => {
                    ||| w is None
                    ||| h is None
                    ||| w->0.whole == 0
                    ||| h->0.whole == 0
                },
            }
        }),
        frame_prop(None) is None,
        frame_prop(Some(Reading::Other)) is None,
{
}

/// The names offered are those of the switches, each as often as it occurs and in the order of a
/// dictionary; the one selected is the first that is on.
pub proof fn law_names_are_offered_in_order(
    names: Seq<String>,
    elems: Seq<SwitchElement>,
    i: int,
    j: int,
)
    requires
        sorted_names(names, elems),
        0 <= i < j < names.len(),
    ensures
        names.len() == elems.len(),
        !text::before(names[j]@, names[i]@),
        exists|k: int, l: int|
            0 <= k < elems.len() && 0 <= l < elems.len() && k != l && (#[trigger] elems[k]).name@
                == names[i]@ && (#[trigger] elems[l]).name@ == names[j]@,
{
    let order = choose|order: Seq<usize>| #[trigger] picks(names, elems, order);
    let a = order[i];
    let b = order[j];
    assert(names[i]@ == elems[a as int].name@);
    assert(names[j]@ == elems[b as int].name@);
}

/// At most one switch is the first that is on.
pub proof fn law_first_on_is_one(elems: Seq<SwitchElement>, i: int, j: int)
    requires
        first_on(elems, i),
        0 <= j < elems.len(),
        elems[j].on,
    ensures
        elems[i].on,
        i <= j,
{
}

/// A reading handed over by reference is that reading.
pub proof fn law_reading_by_reference(r: &Reading)
    ensures
        by_value(Some(r)) == Some(*r),
        by_value(None) is None,
{
}

} // verus!
