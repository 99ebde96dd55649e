//! Mount (telescope) control: connection, manual nudge, slew rate, tracking, and timed
//! pulse-guiding.

use crate::bus::Dir;
use crate::indi;
use crate::indi::{
    change_one, is_switch_on, Change, ReadError, Reading, Setting, SettingView, SwitchElement,
};
use crate::scalar::Scalar;
use crate::text;
use vstd::prelude::*;

verus! {

/// A telescope device and the operations on it.
pub struct Mount<D> {
    pub dev: D,
}

/// The `TELESCOPE_MOTION_*` switch property and element of a nudge direction.
pub open spec fn motion_of(dir: Dir) -> (Seq<char>, Seq<char>) {
    match dir {
        Dir::North => ("TELESCOPE_MOTION_NS"@, "MOTION_NORTH"@),
        Dir::South => ("TELESCOPE_MOTION_NS"@, "MOTION_SOUTH"@),
        Dir::East => ("TELESCOPE_MOTION_WE"@, "MOTION_EAST"@),
        Dir::West => ("TELESCOPE_MOTION_WE"@, "MOTION_WEST"@),
    }
}

/// Map a nudge direction to its `TELESCOPE_MOTION_*` switch property + element.
pub fn motion_target(dir: Dir) -> (r: (&'static str, &'static str))
    ensures
        r.0@ == motion_of(dir).0,
        r.1@ == motion_of(dir).1,
{
    match dir {
        Dir::North => ("TELESCOPE_MOTION_NS", "MOTION_NORTH"),
        Dir::South => ("TELESCOPE_MOTION_NS", "MOTION_SOUTH"),
        Dir::East => ("TELESCOPE_MOTION_WE", "MOTION_EAST"),
        Dir::West => ("TELESCOPE_MOTION_WE", "MOTION_WEST"),
    }
}

/// The `TELESCOPE_TIMED_GUIDE_*` number property and element of a pulse direction.
pub open spec fn guide_of(dir: Dir) -> (Seq<char>, Seq<char>) {
    match dir {
        Dir::North => ("TELESCOPE_TIMED_GUIDE_NS"@, "TIMED_GUIDE_N"@),
        Dir::South => ("TELESCOPE_TIMED_GUIDE_NS"@, "TIMED_GUIDE_S"@),
        Dir::East => ("TELESCOPE_TIMED_GUIDE_WE"@, "TIMED_GUIDE_E"@),
        Dir::West => ("TELESCOPE_TIMED_GUIDE_WE"@, "TIMED_GUIDE_W"@),
    }
}

/// Map a pulse-guide direction to its `TELESCOPE_TIMED_GUIDE_*` number property + element.
pub fn guide_target(dir: Dir) -> (r: (&'static str, &'static str))
    ensures
        r.0@ == guide_of(dir).0,
        r.1@ == guide_of(dir).1,
{
    match dir {
        Dir::North => ("TELESCOPE_TIMED_GUIDE_NS", "TIMED_GUIDE_N"),
        Dir::South => ("TELESCOPE_TIMED_GUIDE_NS", "TIMED_GUIDE_S"),
        Dir::East => ("TELESCOPE_TIMED_GUIDE_WE", "TIMED_GUIDE_E"),
        Dir::West => ("TELESCOPE_TIMED_GUIDE_WE", "TIMED_GUIDE_W"),
    }
}

/// A decimal digit.
pub open spec fn is_digit(c: char) -> bool {
    '0' <= c <= '9'
}

/// A numeric run can begin here: at a digit, or at a point directly in front of one.
pub open spec fn begins_number(label: Seq<char>, i: int) -> bool {
    ||| is_digit(label[i])
    ||| label[i] == '.' && i + 1 < label.len() && is_digit(label[i + 1])
}

/// The first numeric run of a label starts at `from` and ends before `to`: it begins at the first
/// digit, or at the point in front of it, and goes on over digits and points.
pub open spec fn numeric_run_at(label: Seq<char>, from: int, to: int) -> bool {
    &&& 0 <= from <= to <= label.len()
    &&& forall|i: int| 0 <= i < from ==> !#[trigger] begins_number(label, i)
    &&& from < to ==> begins_number(label, from)
    &&& from == to ==> from == label.len()
    &&& forall|i: int| from <= i < to ==> is_digit(#[trigger] label[i]) || label[i] == '.'
    &&& to < label.len() ==> !is_digit(label[to]) && label[to] != '.'
}

/// Extract the first numeric run (digits + `.`) from a label, e.g. `"x0.25"` gives `"0.25"` and
/// `"x.5"` gives `".5"`; empty where the label has no digit.
pub fn leading_number(label: &str) -> (run: &str)
    ensures
        exists|from: int, to: int| #[trigger]
            numeric_run_at(label@, from, to) && run@ == label@.subrange(from, to),
{
    let n: usize = label.unicode_len();
    let mut from: usize = 0;
    while from < n && !number_begins(label, from, n)
        invariant
            from <= n,
            n == label@.len(),
            forall|i: int| 0 <= i < from ==> !#[trigger] begins_number(label@, i),
        decreases n - from,
    {
        from += 1;
    }
    let mut to: usize = from;
    while to < n && (digit(label.get_char(to)) || label.get_char(to) == '.')
        invariant
            from <= to <= n,
            n == label@.len(),
            from < n ==> begins_number(label@, from as int),
            forall|i: int| from <= i < to ==> is_digit(#[trigger] label@[i]) || label@[i] == '.',
        decreases n - to,
    {
        to += 1;
    }
    assert(numeric_run_at(label@, from as int, to as int));
    label.substring_char(from, to)
}

fn number_begins(label: &str, i: usize, n: usize) -> (b: bool)
    requires
        i < n,
        n == label@.len(),
    ensures
        b == begins_number(label@, i as int),
{
    digit(label.get_char(i)) || (label.get_char(i) == '.' && i + 1 < n && digit(
        label.get_char(i + 1),
    ))
}

/// A number with a point in front of its first digit is read with the point, whatever other
/// characters stand before it.
pub proof fn law_leading_point_counts(before: Seq<char>, digits: Seq<char>, after: Seq<char>)
    requires
        digits.len() > 0,
        forall|i: int| 0 <= i < digits.len() ==> is_digit(#[trigger] digits[i]),
        forall|i: int| 0 <= i < before.len() ==> !is_digit(#[trigger] before[i]),
        after.len() > 0 ==> !is_digit(after[0]) && after[0] != '.',
    ensures
        numeric_run_at(
            before + seq!['.'] + digits + after,
            before.len() as int,
            (before.len() + 1 + digits.len()) as int,
        ),
        (before + seq!['.'] + digits + after).subrange(
            before.len() as int,
            (before.len() + 1 + digits.len()) as int,
        ) == seq!['.'] + digits,
{
    let label = before + seq!['.'] + digits + after;
    let from = before.len() as int;
    assert(label[from] == '.');
    assert(label[from + 1] == digits[0]);
    assert forall|i: int| 0 <= i < from implies !#[trigger] begins_number(label, i) by {
        assert(label[i] == before[i]);
        if i + 1 < from {
            assert(label[i + 1] == before[i + 1]);
        }
    }
    assert forall|i: int| from <= i < from + 1 + digits.len() implies is_digit(#[trigger] label[i])
        || label[i] == '.' by {
        if i > from {
            assert(label[i] == digits[i - from - 1]);
        }
    }
    assert(label.subrange(from, from + 1 + digits.len()) =~= seq!['.'] + digits);
}

fn digit(c: char) -> (b: bool)
    ensures
        b == is_digit(c),
{
    '0' <= c && c <= '9'
}

/// One choice of a `OneOfMany` switch.
#[derive(Debug)]
pub struct SwitchOption {
    /// Element name.
    pub name: String,
    /// Display label.
    pub label: String,
    pub on: bool,
    /// The number that the label's [`leading_number`] spells, if it spells one.
    pub number: Option<Scalar>,
}

impl SwitchOption {
    /// "Slow to fast" order of two switch labels. Labels with an embedded number come first, by
    /// value (`x0.25 < x0.5 < x1 < x2 < x10`); labels without one (Guide, Max) come after,
    /// alphabetically.
    pub open spec fn slower(&self, other: &SwitchOption) -> bool {
        match (self.number, other.number) {
            (Some(x), Some(y)) => x.below(y),
            (Some(_), None) => true,
            (None, Some(_)) => false,
            (None, None) => text::before(self.label@, other.label@),
        }
    }

    /// Whether this choice comes before the other from slow to fast.
    pub fn is_slower(&self, other: &SwitchOption) -> (b: bool)
        ensures
            b == self.slower(other),
    {
        match (self.number, other.number) {
            (Some(x), Some(y)) => x.lt(y),
            (Some(_), None) => true,
            (None, Some(_)) => false,
            (None, None) => text::less(self.label.as_str(), other.label.as_str()),
        }
    }

    /// A label spells a number, never NaN.
    pub open spec fn wf(&self) -> bool {
        self.number matches Some(x) ==> !x.nan()
    }
}

/// `order` lists every index below `n` once.
pub open spec fn lists_all(order: Seq<usize>, n: nat) -> bool {
    &&& order.len() == n
    &&& forall|i: int| 0 <= i < n ==> (#[trigger] order[i]) < n
    &&& forall|i: int, j: int| 0 <= i < j < n ==> #[trigger] order[i] != #[trigger] order[j]
}

/// `order` lists the options from slow to fast, equal ones in the order they came in.
pub open spec fn slow_to_fast(opts: Seq<SwitchOption>, order: Seq<usize>) -> bool {
    &&& lists_all(order, order.len())
    &&& order.len() <= opts.len()
    &&& forall|i: int, j: int|
        #![trigger order[i], order[j]]
        0 <= i < j < order.len() ==> !opts[order[j] as int].slower(&opts[order[i] as int]) && (
        opts[order[i] as int].slower(&opts[order[j] as int]) || order[i] < order[j])
}

/// Sort options from slow to fast, keeping the order of equal ones.
pub fn sort_options(opts: &Vec<SwitchOption>) -> (order: Vec<usize>)
    requires
        forall|i: int| 0 <= i < opts@.len() ==> (#[trigger] opts@[i]).wf(),
    ensures
        order@.len() == opts@.len(),
        slow_to_fast(opts@, order@),
{
    let mut order: Vec<usize> = Vec::new();
    let mut k: usize = 0;
    while k < opts.len()
        invariant
            k <= opts.len(),
            order@.len() == k,
            slow_to_fast(opts@, order@),
            forall|i: int| 0 <= i < opts@.len() ==> (#[trigger] opts@[i]).wf(),
        decreases opts.len() - k,
    {
        let mut pos: usize = k;
        while pos > 0 && opts[k].is_slower(&opts[order[pos - 1]])
            invariant
                pos <= k,
                k < opts@.len(),
                order@.len() == k,
                slow_to_fast(opts@, order@),
                forall|i: int| pos <= i < k ==> opts@[k as int].slower(&opts@[#[trigger] order@[i] as int]),
            decreases pos,
        {
            pos -= 1;
        }
        let ghost before = order@;
        proof {
            assert forall|i: int| 0 <= i < pos implies !opts@[k as int].slower(
                &opts@[#[trigger] before[i] as int],
            ) by {
                let a = opts@[k as int];
                let b = opts@[before[pos - 1] as int];
                let c = opts@[before[i] as int];
                if i < pos - 1 {
                    lemma_not_slower_chain(a, b, c);
                }
            }
            assert forall|i: int| pos <= i < k implies !opts@[#[trigger] before[i] as int].slower(
                &opts@[k as int],
            ) by {
                lemma_slower_one_way(opts@[k as int], opts@[before[i] as int]);
            }
        }
        order.insert(pos, k);
        proof {
            assert(order@ =~= before.insert(pos as int, k));
            assert forall|i: int, j: int|
                #![trigger order@[i], order@[j]]
                0 <= i < j < order@.len() implies order@[i] != order@[j]
                && !opts@[order@[j] as int].slower(&opts@[order@[i] as int]) && (
            opts@[order@[i] as int].slower(&opts@[order@[j] as int]) || order@[i] < order@[j]) by {
                let p = if i < pos {
                    i
                } else {
                    i - 1
                };
                let q = if j < pos {
                    j
                } else {
                    j - 1
                };
                if i != pos {
                    assert(order@[i] == before[p]);
                }
                if j != pos {
                    assert(order@[j] == before[q]);
                }
            }
        }
        k += 1;
    }
    order
}

proof fn lemma_slower_one_way(a: SwitchOption, b: SwitchOption)
    requires
        a.slower(&b),
    ensures
        !b.slower(&a),
{
    if a.number is None && b.number is None {
        text::lemma_before_one_way(a.label@, b.label@);
    }
}

proof fn lemma_not_slower_chain(a: SwitchOption, b: SwitchOption, c: SwitchOption)
    requires
        a.wf(),
        b.wf(),
        c.wf(),
        !a.slower(&b),
        !b.slower(&c),
    ensures
        !a.slower(&c),
{
    if a.number is None && b.number is None && c.number is None {
        text::lemma_not_before_chain(a.label@, b.label@, c.label@);
    }
}

/// The label that a switch element is shown with: its own, or its name.
pub open spec fn shown_label(e: SwitchElement) -> Seq<char> {
    match e.label {
        Some(l) => l@,
        None => e.name@,
    }
}

fn display_label(e: &SwitchElement) -> (s: String)
    ensures
        s@ == shown_label(*e),
{
    match &e.label {
        Some(l) => l.clone(),
        None => e.name.clone(),
    }
}

/// From a reading of a switch vector, its choices as they came in, their numbers not read yet.
pub fn options_of(reading: Option<&Reading>) -> (r: Result<Vec<SwitchOption>, ReadError>)
    ensures
        match reading {
            None => r == Err::<Vec<SwitchOption>, ReadError>(ReadError::Absent),
            Some(Reading::Switches(elems)) => r matches Ok(opts) && {
                &&& opts@.len() == elems@.len()
                &&& forall|i: int|
                    0 <= i < opts@.len() ==> {
                        &&& (#[trigger] opts@[i]).name == elems@[i].name
                        &&& opts@[i].label@ == shown_label(elems@[i])
                        &&& opts@[i].on == elems@[i].on
                        &&& opts@[i].number is None
                    }
            },
            Some(_) => r == Err::<Vec<SwitchOption>, ReadError>(ReadError::WrongKind),
        },
{
    match reading {
        None => Err(ReadError::Absent),
        Some(Reading::Switches(elems)) => {
            let mut opts: Vec<SwitchOption> = Vec::new();
            let mut i: usize = 0;
            while i < elems.len()
                invariant
                    i <= elems.len(),
                    opts@.len() == i,
                    forall|k: int|
                        0 <= k < i ==> {
                            &&& (#[trigger] opts@[k]).name == elems@[k].name
                            &&& opts@[k].label@ == shown_label(elems@[k])
                            &&& opts@[k].on == elems@[k].on
                            &&& opts@[k].number is None
                        },
                decreases elems.len() - i,
            {
                let e: &SwitchElement = &elems[i];
                opts.push(
                    SwitchOption {
                        name: e.name.clone(),
                        label: display_label(e),
                        on: e.on,
                        number: None,
                    },
                );
                i += 1;
            }
            Ok(opts)
        },
        Some(_) => Err(ReadError::WrongKind),
    }
}

/// What a switch vector offers: the element name and the label of each choice from slow to fast, and
/// the index of the selected one; the first where none is on.
pub open spec fn offers(
    opts: Seq<SwitchOption>,
    order: Seq<usize>,
    pairs: Seq<(String, String)>,
    selected: int,
) -> bool {
    &&& slow_to_fast(opts, order)
    &&& order.len() == opts.len()
    &&& pairs.len() == opts.len()
    &&& forall|i: int|
        0 <= i < pairs.len() ==> (#[trigger] pairs[i]).0 == opts[order[i] as int].name && pairs[i].1
            == opts[order[i] as int].label
    &&& first_selected(opts, order, selected)
}

/// `selected` is the first choice that is on, or zero where none is.
pub open spec fn first_selected(opts: Seq<SwitchOption>, order: Seq<usize>, selected: int) -> bool {
    ||| {
        &&& 0 <= selected < order.len()
        &&& opts[order[selected] as int].on
        &&& forall|i: int| 0 <= i < selected ==> !opts[#[trigger] order[i] as int].on
    }
    ||| {
        &&& selected == 0
        &&& forall|i: int| 0 <= i < order.len() ==> !opts[#[trigger] order[i] as int].on
    }
}

/// From the choices of a `OneOfMany` switch vector, an ordered list of `(element name, display
/// label)` pairs plus the index of the currently-selected element, ordered slow to fast.
pub fn read_switch_options(opts: &Vec<SwitchOption>) -> (r: (Vec<(String, String)>, usize))
    requires
        forall|i: int| 0 <= i < opts@.len() ==> (#[trigger] opts@[i]).wf(),
    ensures
        exists|order: Seq<usize>| #[trigger] offers(opts@, order, r.0@, r.1 as int),
{
    let order: Vec<usize> = sort_options(opts);
    let mut pairs: Vec<(String, String)> = Vec::new();
    let mut selected: Option<usize> = None;
    let mut i: usize = 0;
    while i < order.len()
        invariant
            i <= order.len(),
            order@.len() == opts@.len(),
            slow_to_fast(opts@, order@),
            pairs@.len() == i,
            forall|k: int|
                0 <= k < i ==> (#[trigger] pairs@[k]).0 == opts@[order@[k] as int].name && pairs@[k].1
                    == opts@[order@[k] as int].label,
            match selected {
                Some(s) => {
                    &&& s < i
                    &&& opts@[order@[s as int] as int].on
                    &&& forall|k: int| 0 <= k < s ==> !opts@[#[trigger] order@[k] as int].on
                },
                None => forall|k: int| 0 <= k < i ==> !opts@[#[trigger] order@[k] as int].on,
            },
        decreases order.len() - i,
    {
        let o: &SwitchOption = &opts[order[i]];
        pairs.push((o.name.clone(), o.label.clone()));
        if o.on && selected.is_none() {
            selected = Some(i);
        }
        i += 1;
    }
    let at: usize = match selected {
        Some(s) => s,
        None => 0,
    };
    let r: (Vec<(String, String)>, usize) = (pairs, at);
    assert(offers(opts@, order@, r.0@, r.1 as int));
    r
}

impl<D> Mount<D> {
    pub fn new(dev: D) -> (m: Self)
        ensures
            m.dev == dev,
    {
        Mount { dev }
    }

    pub fn connect(&self) -> (c: Change)
        ensures
            c@ == indi::one("CONNECTION"@, "CONNECT"@, SettingView::Switch(true), true),
    {
        change_one("CONNECTION", "CONNECT", Setting::Switch(true), true)
    }

    /// From the choices of `TELESCOPE_SLEW_RATE`, `(element name, label)` pairs from slow to fast
    /// plus the selected index.
    pub fn slew_rates(&self, opts: &Vec<SwitchOption>) -> (r: (Vec<(String, String)>, usize))
        requires
            forall|i: int| 0 <= i < opts@.len() ==> (#[trigger] opts@[i]).wf(),
        ensures
            exists|order: Seq<usize>| #[trigger] offers(opts@, order, r.0@, r.1 as int),
    {
        read_switch_options(opts)
    }

    /// From the choices of `TELESCOPE_TRACK_MODE` (Sidereal/Solar/Lunar/Custom), `(element name,
    /// label)` pairs plus the selected index. Not all mounts expose it.
    pub fn track_modes(&self, opts: &Vec<SwitchOption>) -> (r: (Vec<(String, String)>, usize))
        requires
            forall|i: int| 0 <= i < opts@.len() ==> (#[trigger] opts@[i]).wf(),
        ensures
            exists|order: Seq<usize>| #[trigger] offers(opts@, order, r.0@, r.1 as int),
    {
        read_switch_options(opts)
    }

    /// From a reading of `TELESCOPE_TRACK_STATE`, whether tracking is currently on.
    pub fn tracking_on(&self, reading: Option<&Reading>) -> (r: Result<bool, ReadError>)
        ensures
            r == (match reading {
                None => Err::<bool, ReadError>(ReadError::Absent),
                Some(p) => match indi::switch_state(*p, "TRACK_ON"@) {
                    Some(on) => Ok(on),
                    None => Err(ReadError::WrongKind),
                },
            }),
    {
        is_switch_on(reading, "TRACK_ON")
    }

    /// From a reading of the `TELESCOPE_MOTION_*` switch of `dir`, whether the mount is currently
    /// commanded to move that way.
    pub fn is_moving(&self, dir: Dir, reading: Option<&Reading>) -> (r: Result<bool, ReadError>)
        ensures
            r == (match reading {
                None => Err::<bool, ReadError>(ReadError::Absent),
                Some(p) => match indi::switch_state(*p, motion_of(dir).1) {
                    Some(on) => Ok(on),
                    None => Err(ReadError::WrongKind),
                },
            }),
    {
        let (_, elem) = motion_target(dir);
        is_switch_on(reading, elem)
    }

    /// Start (`active`) or stop a manual slew in `dir`.
    pub fn nudge(&self, dir: Dir, active: bool) -> (c: Change)
        ensures
            c@ == indi::one(motion_of(dir).0, motion_of(dir).1, SettingView::Switch(active), true),
    {
        let (prop, elem) = motion_target(dir);
        change_one(prop, elem, Setting::Switch(active), true)
    }

    pub fn set_slew_rate(&self, name: &str) -> (c: Change)
        ensures
            c@ == indi::one("TELESCOPE_SLEW_RATE"@, name@, SettingView::Switch(true), true),
    {
        change_one("TELESCOPE_SLEW_RATE", name, Setting::Switch(true), true)
    }

    pub fn set_track_mode(&self, name: &str) -> (c: Change)
        ensures
            c@ == indi::one("TELESCOPE_TRACK_MODE"@, name@, SettingView::Switch(true), true),
    {
        change_one("TELESCOPE_TRACK_MODE", name, Setting::Switch(true), true)
    }

    pub fn set_tracking(&self, on: bool) -> (c: Change)
        ensures
            c@ == indi::one(
                "TELESCOPE_TRACK_STATE"@,
                if on {
                    "TRACK_ON"@
                } else {
                    "TRACK_OFF"@
                },
                SettingView::Switch(true),
                true,
            ),
    {
        let elem: &'static str = if on {
            "TRACK_ON"
        } else {
            "TRACK_OFF"
        };
        change_one("TELESCOPE_TRACK_STATE", elem, Setting::Switch(true), true)
    }

    pub fn abort(&self) -> (c: Change)
        ensures
            c@ == indi::one("TELESCOPE_ABORT_MOTION"@, "ABORT"@, SettingView::Switch(true), true),
    {
        change_one("TELESCOPE_ABORT_MOTION", "ABORT", Setting::Switch(true), true)
    }

    /// Issue a timed guide pulse of `millis` in `dir`. Its element counts down from the requested
    /// time and the property stays busy meanwhile, so this is not waited for; the caller spaces
    /// pulses so they don't overlap.
    pub fn pulse_guide(&self, dir: Dir, millis: Scalar) -> (c: Change)
        ensures
            c@ == indi::one(guide_of(dir).0, guide_of(dir).1, SettingView::Number(millis), false),
    {
        let (prop, elem) = guide_target(dir);
        change_one(prop, elem, Setting::Number(millis), false)
    }
}

/// Each pulse direction has its own INDI name: North and South of one property, West and East of the
/// other.
pub proof fn law_pulse_directions_have_their_names()
    ensures
        guide_of(Dir::North) == ("TELESCOPE_TIMED_GUIDE_NS"@, "TIMED_GUIDE_N"@),
        guide_of(Dir::South) == ("TELESCOPE_TIMED_GUIDE_NS"@, "TIMED_GUIDE_S"@),
        guide_of(Dir::West) == ("TELESCOPE_TIMED_GUIDE_WE"@, "TIMED_GUIDE_W"@),
        guide_of(Dir::East) == ("TELESCOPE_TIMED_GUIDE_WE"@, "TIMED_GUIDE_E"@),
{
}

/// Each nudge direction has its own INDI name: North and South of one property, West and East of the
/// other.
pub proof fn law_nudge_directions_have_their_names()
    ensures
        motion_of(Dir::North) == ("TELESCOPE_MOTION_NS"@, "MOTION_NORTH"@),
        motion_of(Dir::South) == ("TELESCOPE_MOTION_NS"@, "MOTION_SOUTH"@),
        motion_of(Dir::West) == ("TELESCOPE_MOTION_WE"@, "MOTION_WEST"@),
        motion_of(Dir::East) == ("TELESCOPE_MOTION_WE"@, "MOTION_EAST"@),
{
}

/// Different directions never move the mount the same way: their elements differ, and two directions
/// share a property exactly where they lie on one axis.
pub proof fn law_directions_are_told_apart(a: Dir, b: Dir)
    requires
        a != b,
    ensures
        guide_of(a).1 != guide_of(b).1,
        motion_of(a).1 != motion_of(b).1,
        guide_of(a).0 == guide_of(b).0 <==> (vertical(a) <==> vertical(b)),
        motion_of(a).0 == motion_of(b).0 <==> (vertical(a) <==> vertical(b)),
{
    reveal_strlit("TELESCOPE_TIMED_GUIDE_NS");
    reveal_strlit("TELESCOPE_TIMED_GUIDE_WE");
    reveal_strlit("TIMED_GUIDE_N");
    reveal_strlit("TIMED_GUIDE_S");
    reveal_strlit("TIMED_GUIDE_W");
    reveal_strlit("TIMED_GUIDE_E");
    reveal_strlit("TELESCOPE_MOTION_NS");
    reveal_strlit("TELESCOPE_MOTION_WE");
    reveal_strlit("MOTION_NORTH");
    reveal_strlit("MOTION_SOUTH");
    reveal_strlit("MOTION_WEST");
    reveal_strlit("MOTION_EAST");
    assert("TIMED_GUIDE_N"@[12] == 'N' && "TIMED_GUIDE_S"@[12] == 'S');
    assert("TIMED_GUIDE_W"@[12] == 'W' && "TIMED_GUIDE_E"@[12] == 'E');
    assert("MOTION_NORTH"@[7] == 'N' && "MOTION_SOUTH"@[7] == 'S');
    assert("MOTION_WEST"@[7] == 'W' && "MOTION_EAST"@[7] == 'E');
    assert("TELESCOPE_TIMED_GUIDE_NS"@[22] == 'N' && "TELESCOPE_TIMED_GUIDE_WE"@[22] == 'W');
    assert("TELESCOPE_MOTION_NS"@[17] == 'N' && "TELESCOPE_MOTION_WE"@[17] == 'W');
}

/// A direction lies on the axis of declination.
pub open spec fn vertical(dir: Dir) -> bool {
    dir == Dir::North || dir == Dir::South
}

/// The first number of a label is found whatever stands around it: a run of the ten digits and
/// points that begins with a digit, behind text without digits or points.
pub proof fn law_first_number_is_found(before: Seq<char>, run: Seq<char>, after: Seq<char>)
    requires
        run.len() > 0,
        48 <= run[0] as int <= 57,
        forall|i: int|
            0 <= i < run.len() ==> 48 <= (#[trigger] run[i]) as int <= 57 || run[i] == '.',
        forall|i: int|
            0 <= i < before.len() ==> !(48 <= (#[trigger] before[i]) as int <= 57) && before[i]
                != '.',
        after.len() > 0 ==> !(48 <= after[0] as int <= 57) && after[0] != '.',
    ensures
        numeric_run_at(
            before + run + after,
            before.len() as int,
            (before.len() + run.len()) as int,
        ),
        (before + run + after).subrange(
            before.len() as int,
            (before.len() + run.len()) as int,
        ) == run,
{
    let label = before + run + after;
    let from = before.len() as int;
    let to = (before.len() + run.len()) as int;
    assert forall|i: int| 0 <= i < from implies !#[trigger] begins_number(label, i) by {
        assert(label[i] == before[i]);
    }
    assert(label[from] == run[0]);
    assert forall|i: int| from <= i < to implies is_digit(#[trigger] label[i]) || label[i]
        == '.' by {
        assert(label[i] == run[i - from]);
    }
    if to < label.len() {
        assert(label[to] == after[0]);
    }
    assert(label.subrange(from, to) =~= run);
}

/// A label has one first number.
pub proof fn law_first_number_is_one(label: Seq<char>, a: int, b: int, c: int, d: int)
    requires
        numeric_run_at(label, a, b),
        numeric_run_at(label, c, d),
    ensures
        label.subrange(a, b) == label.subrange(c, d),
{
    if a < c {
        assert(!begins_number(label, a));
    } else if c < a {
        assert(!begins_number(label, c));
    }
    if a == c && b < d {
        assert(is_digit(label[b]) || label[b] == '.');
    } else if a == c && d < b {
        assert(is_digit(label[d]) || label[d] == '.');
    }
    if a < c {
        assert(a == b && a == label.len());
    }
    if c < a {
        assert(c == d && c == label.len());
    }
}

/// Labels with a number come first, by value; those without one come after, in the order of a
/// dictionary.
pub proof fn law_numbered_labels_come_first(a: SwitchOption, b: SwitchOption)
    ensures
        a.number is Some && b.number is None ==> a.slower(&b) && !b.slower(&a),
        a.number is Some && b.number is Some ==> (a.slower(&b) <==> a.number->0.below(b.number->0)),
        a.number is None && b.number is None ==> (a.slower(&b) <==> text::before(
            a.label@,
            b.label@,
        )),
{
}

/// Every option is offered once under its own name and label, no later one is slower than an earlier
/// one, and the selected one is on wherever any is.
pub proof fn law_every_option_is_offered(
    opts: Seq<SwitchOption>,
    order: Seq<usize>,
    pairs: Seq<(String, String)>,
    selected: int,
    i: int,
    j: int,
)
    requires
        offers(opts, order, pairs, selected),
        0 <= i < j < opts.len(),
    ensures
        pairs.len() == opts.len(),
        order[i] != order[j],
        pairs[i].0 == opts[order[i] as int].name,
        pairs[i].1 == opts[order[i] as int].label,
        pairs[j].0 == opts[order[j] as int].name,
        pairs[j].1 == opts[order[j] as int].label,
        !opts[order[j] as int].slower(&opts[order[i] as int]),
        !opts[order[i] as int].slower(&opts[order[j] as int]) ==> order[i] < order[j],
        order[i] < opts.len() && order[j] < opts.len(),
        0 <= selected < opts.len(),
        opts[order[i] as int].on ==> opts[order[selected] as int].on && selected <= i,
        opts[order[j] as int].on ==> opts[order[selected] as int].on && selected <= j,
{
    let a = order[i];
    let b = order[j];
}

/// An option is shown by its label, or by its name where it has none.
pub proof fn law_options_are_shown_by_label(e: SwitchElement)
    ensures
        e.label matches Some(l) ==> shown_label(e) == l@,
        e.label is None ==> shown_label(e) == e.name@,
{
}

} // verus!
