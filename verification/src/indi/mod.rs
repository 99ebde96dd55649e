//! Camera and mount control over INDI: which properties are set to what, and what the readings of
//! properties mean. Sending and reading is left to the caller, which holds the connection.

pub mod camera;
pub mod discovery;
pub mod mount;

use crate::scalar::Scalar;
use crate::text;
use vstd::prelude::*;

verus! {

/// What an element of a property is set to.
#[derive(Debug)]
pub enum Setting {
    Switch(bool),
    Number(Scalar),
    /// A whole number.
    Count(u64),
    Text(String),
}

/// The setting with its text as characters.
pub enum SettingView {
    Switch(bool),
    Number(Scalar),
    Count(u64),
    Text(Seq<char>),
}

impl View for Setting {
    type V = SettingView;

    open spec fn view(&self) -> SettingView {
        match *self {
            Setting::Switch(on) => SettingView::Switch(on),
            Setting::Number(v) => SettingView::Number(v),
            Setting::Count(n) => SettingView::Count(n),
            Setting::Text(s) => SettingView::Text(s@),
        }
    }
}

/// A change of a device property: its elements and their settings, sent together.
#[derive(Debug)]
pub struct Change {
    pub prop: String,
    pub elems: Vec<(String, Setting)>,
    /// Whether to wait until the property settles. A property that stays busy for as long as what
    /// it started goes on (a stream, a recording, a guide pulse) never settles, so such a change is
    /// sent and not waited for.
    pub wait: bool,
}

/// A change with its texts as characters.
#[verifier::ext_equal]
pub struct ChangeView {
    pub prop: Seq<char>,
    pub elems: Seq<(Seq<char>, SettingView)>,
    pub wait: bool,
}

impl View for Change {
    type V = ChangeView;

    open spec fn view(&self) -> ChangeView {
        ChangeView {
            prop: self.prop@,
            elems: self.elems@.map_values(|e: (String, Setting)| (e.0@, e.1@)),
            wait: self.wait,
        }
    }
}

/// A change of one element.
pub open spec fn one(prop: Seq<char>, elem: Seq<char>, setting: SettingView, wait: bool) -> ChangeView {
    ChangeView { prop, elems: seq![(elem, setting)], wait }
}

/// A change of one element.
pub fn change_one(prop: &str, elem: &str, setting: Setting, wait: bool) -> (c: Change)
    ensures
        c@ == one(prop@, elem@, setting@, wait),
{
    let mut elems: Vec<(String, Setting)> = Vec::new();
    elems.push((elem.to_owned(), setting));
    let c = Change { prop: prop.to_owned(), elems, wait };
    proof {
        assert(c@.elems =~= seq![(elem@, setting@)]);
    }
    c
}

/// A number element as read from a device.
#[derive(Debug)]
pub struct NumberElement {
    pub name: String,
    pub value: Scalar,
    /// The value as a whole number: its fraction dropped, and held within 32 bits.
    pub whole: u32,
    pub min: Scalar,
    pub max: Scalar,
}

/// A switch element as read from a device.
#[derive(Debug)]
pub struct SwitchElement {
    pub name: String,
    pub label: Option<String>,
    pub on: bool,
}

/// A text element as read from a device.
#[derive(Debug)]
pub struct TextElement {
    pub name: String,
    pub value: String,
}

/// A property as read from a device, its elements in no particular order but each name once.
#[derive(Debug)]
pub enum Reading {
    Numbers(Vec<NumberElement>),
    Switches(Vec<SwitchElement>),
    Texts(Vec<TextElement>),
    /// Lights or blobs.
    Other,
}

/// Why a reading does not give what was asked of it.
#[derive(Clone, Copy, Debug, PartialEq, Eq, Structural)]
pub enum ReadError {
    /// The device has no such property, or it could not be read.
    Absent,
    /// The property is of another kind.
    WrongKind,
    /// The property lacks an element.
    NoElement,
}

/// The number element of a name, if there is one: the first such.
pub open spec fn number_named(elems: Seq<NumberElement>, name: Seq<char>) -> Option<NumberElement>
    decreases elems.len(),
{
    if elems.len() == 0 {
        None
    } else if elems[0].name@ == name {
        Some(elems[0])
    } else {
        number_named(elems.subrange(1, elems.len() as int), name)
    }
}

/// The switch element of a name, if there is one: the first such.
pub open spec fn switch_named(elems: Seq<SwitchElement>, name: Seq<char>) -> Option<SwitchElement>
    decreases elems.len(),
{
    if elems.len() == 0 {
        None
    } else if elems[0].name@ == name {
        Some(elems[0])
    } else {
        switch_named(elems.subrange(1, elems.len() as int), name)
    }
}

/// The text element of a name, if there is one: the first such.
pub open spec fn text_named(elems: Seq<TextElement>, name: Seq<char>) -> Option<TextElement>
    decreases elems.len(),
{
    if elems.len() == 0 {
        None
    } else if elems[0].name@ == name {
        Some(elems[0])
    } else {
        text_named(elems.subrange(1, elems.len() as int), name)
    }
}

/// Find a number element by name.
pub fn find_number<'a>(elems: &'a Vec<NumberElement>, name: &str) -> (r: Option<&'a NumberElement>)
    ensures
        match r {
            Some(e) => number_named(elems@, name@) == Some(*e),
            None => number_named(elems@, name@) is None,
        },
{
    let mut i: usize = 0;
    assert(elems@.subrange(0, elems@.len() as int) =~= elems@);
    while i < elems.len()
        invariant
            i <= elems.len(),
            number_named(elems@, name@) == number_named(
                elems@.subrange(i as int, elems@.len() as int),
                name@,
            ),
        decreases elems.len() - i,
    {
        let ghost rest = elems@.subrange(i as int, elems@.len() as int);
        assert(rest.subrange(1, rest.len() as int) =~= elems@.subrange(
            i + 1,
            elems@.len() as int,
        ));
        if text::same(elems[i].name.as_str(), name) {
            return Some(&elems[i]);
        }
        i += 1;
    }
    None
}

/// Find a switch element by name.
pub fn find_switch<'a>(elems: &'a Vec<SwitchElement>, name: &str) -> (r: Option<&'a SwitchElement>)
    ensures
        match r {
            Some(e) => switch_named(elems@, name@) == Some(*e),
            None => switch_named(elems@, name@) is None,
        },
{
    let mut i: usize = 0;
    assert(elems@.subrange(0, elems@.len() as int) =~= elems@);
    while i < elems.len()
        invariant
            i <= elems.len(),
            switch_named(elems@, name@) == switch_named(
                elems@.subrange(i as int, elems@.len() as int),
                name@,
            ),
        decreases elems.len() - i,
    {
        let ghost rest = elems@.subrange(i as int, elems@.len() as int);
        assert(rest.subrange(1, rest.len() as int) =~= elems@.subrange(
            i + 1,
            elems@.len() as int,
        ));
        if text::same(elems[i].name.as_str(), name) {
            return Some(&elems[i]);
        }
        i += 1;
    }
    None
}

/// Find a text element by name.
pub fn find_text<'a>(elems: &'a Vec<TextElement>, name: &str) -> (r: Option<&'a TextElement>)
    ensures
        match r {
            Some(e) => text_named(elems@, name@) == Some(*e),
            None => text_named(elems@, name@) is None,
        },
{
    let mut i: usize = 0;
    assert(elems@.subrange(0, elems@.len() as int) =~= elems@);
    while i < elems.len()
        invariant
            i <= elems.len(),
            text_named(elems@, name@) == text_named(
                elems@.subrange(i as int, elems@.len() as int),
                name@,
            ),
        decreases elems.len() - i,
    {
        let ghost rest = elems@.subrange(i as int, elems@.len() as int);
        assert(rest.subrange(1, rest.len() as int) =~= elems@.subrange(
            i + 1,
            elems@.len() as int,
        ));
        if text::same(elems[i].name.as_str(), name) {
            return Some(&elems[i]);
        }
        i += 1;
    }
    None
}

/// Whether the named switch of a reading is on: absent where the reading is of another kind.
pub open spec fn switch_state(reading: Reading, name: Seq<char>) -> Option<bool> {
    match reading {
        Reading::Switches(elems) => match switch_named(elems@, name) {
            Some(e) => Some(e.on),
            None => Some(false),
        },
        _ => None,
    }
}

/// Read whether the named switch is on; a switch vector without it counts as off.
pub fn is_switch_on(reading: Option<&Reading>, name: &str) -> (r: Result<bool, ReadError>)
    ensures
        r == (match reading {
            None => Err::<bool, ReadError>(ReadError::Absent),
            Some(p) => match switch_state(*p, name@) {
                Some(on) => Ok(on),
                None => Err(ReadError::WrongKind),
            },
        }),
{
    match reading {
        None => Err(ReadError::Absent),
        Some(Reading::Switches(elems)) => match find_switch(elems, name) {
            Some(e) => Ok(e.on),
            None => Ok(false),
        },
        Some(_) => Err(ReadError::WrongKind),
    }
}

/// A change of one element names that property, element and value, and nothing else.
pub proof fn law_one_change_is_one_element(
    prop: Seq<char>,
    elem: Seq<char>,
    setting: SettingView,
    wait: bool,
)
    ensures
        one(prop, elem, setting, wait).prop == prop,
        one(prop, elem, setting, wait).elems.len() == 1,
        one(prop, elem, setting, wait).elems[0].0 == elem,
        one(prop, elem, setting, wait).elems[0].1 == setting,
        one(prop, elem, setting, wait).wait == wait,
{
}

/// What is stated of a change is what it holds: its property, each of its elements with its value,
/// and whether it is waited for.
pub proof fn law_change_shows_what_it_holds(c: Change, s: Setting, i: int)
    ensures
        c@.prop == c.prop@,
        c@.elems.len() == c.elems@.len(),
        0 <= i < c.elems@.len() ==> c@.elems[i].0 == c.elems@[i].0@ && c@.elems[i].1
            == c.elems@[i].1@,
        c@.wait == c.wait,
        match s {
            Setting::Switch(on) => s@ == SettingView::Switch(on),
            Setting::Number(v) => s@ == SettingView::Number(v),
            Setting::Count(n) => s@ == SettingView::Count(n),
            Setting::Text(t) => s@ == SettingView::Text(t@),
        },
{
}

/// A number is found by its name, the first of that name, and not found only where none has it.
pub proof fn law_numbers_are_found_by_name(elems: Seq<NumberElement>, name: Seq<char>)
    ensures
        match number_named(elems, name) {
            Some(e) => exists|i: int|
                {
                    &&& 0 <= i < elems.len()
                    &&& #[trigger] elems[i] == e
                    &&& e.name@ == name
                    &&& forall|j: int| 0 <= j < i ==> (#[trigger] elems[j]).name@ != name
                },
            None => forall|j: int| 0 <= j < elems.len() ==> (#[trigger] elems[j]).name@ != name,
        },
    decreases elems.len(),
{
    if elems.len() > 0 && elems[0].name@ != name {
        let rest = elems.subrange(1, elems.len() as int);
        law_numbers_are_found_by_name(rest, name);
        match number_named(rest, name) {
            Some(e) => {
                let i = choose|i: int|
                    {
                        &&& 0 <= i < rest.len()
                        &&& #[trigger] rest[i] == e
                        &&& e.name@ == name
                        &&& forall|j: int| 0 <= j < i ==> (#[trigger] rest[j]).name@ != name
                    };
                assert(elems[i + 1] == e);
                assert forall|j: int| 0 <= j < i + 1 implies (#[trigger] elems[j]).name@
                    != name by {
                    if j > 0 {
                        assert(rest[j - 1] == elems[j]);
                    }
                }
            },
            None => {
                assert forall|j: int| 0 <= j < elems.len() implies (#[trigger] elems[j]).name@
                    != name by {
                    if j > 0 {
                        assert(rest[j - 1] == elems[j]);
                    }
                }
            },
        }
    } else if elems.len() > 0 {
        assert(elems[0] == elems[0]);
    }
}

/// A switch is found by its name, the first of that name, and not found only where none has it.
pub proof fn law_switches_are_found_by_name(elems: Seq<SwitchElement>, name: Seq<char>)
    ensures
        match switch_named(elems, name) {
            Some(e) => exists|i: int|
                {
                    &&& 0 <= i < elems.len()
                    &&& #[trigger] elems[i] == e
                    &&& e.name@ == name
                    &&& forall|j: int| 0 <= j < i ==> (#[trigger] elems[j]).name@ != name
                },
            None => forall|j: int| 0 <= j < elems.len() ==> (#[trigger] elems[j]).name@ != name,
        },
    decreases elems.len(),
{
    if elems.len() > 0 && elems[0].name@ != name {
        let rest = elems.subrange(1, elems.len() as int);
        law_switches_are_found_by_name(rest, name);
        match switch_named(rest, name) {
            Some(e) => {
                let i = choose|i: int|
                    {
                        &&& 0 <= i < rest.len()
                        &&& #[trigger] rest[i] == e
                        &&& e.name@ == name
                        &&& forall|j: int| 0 <= j < i ==> (#[trigger] rest[j]).name@ != name
                    };
                assert(elems[i + 1] == e);
                assert forall|j: int| 0 <= j < i + 1 implies (#[trigger] elems[j]).name@
                    != name by {
                    if j > 0 {
                        assert(rest[j - 1] == elems[j]);
                    }
                }
            },
            None => {
                assert forall|j: int| 0 <= j < elems.len() implies (#[trigger] elems[j]).name@
                    != name by {
                    if j > 0 {
                        assert(rest[j - 1] == elems[j]);
                    }
                }
            },
        }
    } else if elems.len() > 0 {
        assert(elems[0] == elems[0]);
    }
}

/// A text is found by its name, the first of that name, and not found only where none has it.
pub proof fn law_texts_are_found_by_name(elems: Seq<TextElement>, name: Seq<char>)
    ensures
        match text_named(elems, name) {
            Some(e) => exists|i: int|
                {
                    &&& 0 <= i < elems.len()
                    &&& #[trigger] elems[i] == e
                    &&& e.name@ == name
                    &&& forall|j: int| 0 <= j < i ==> (#[trigger] elems[j]).name@ != name
                },
            None => forall|j: int| 0 <= j < elems.len() ==> (#[trigger] elems[j]).name@ != name,
        },
    decreases elems.len(),
{
    if elems.len() > 0 && elems[0].name@ != name {
        let rest = elems.subrange(1, elems.len() as int);
        law_texts_are_found_by_name(rest, name);
        match text_named(rest, name) {
            Some(e) => {
                let i = choose|i: int|
                    {
                        &&& 0 <= i < rest.len()
                        &&& #[trigger] rest[i] == e
                        &&& e.name@ == name
                        &&& forall|j: int| 0 <= j < i ==> (#[trigger] rest[j]).name@ != name
                    };
                assert(elems[i + 1] == e);
                assert forall|j: int| 0 <= j < i + 1 implies (#[trigger] elems[j]).name@
                    != name by {
                    if j > 0 {
                        assert(rest[j - 1] == elems[j]);
                    }
                }
            },
            None => {
                assert forall|j: int| 0 <= j < elems.len() implies (#[trigger] elems[j]).name@
                    != name by {
                    if j > 0 {
                        assert(rest[j - 1] == elems[j]);
                    }
                }
            },
        }
    } else if elems.len() > 0 {
        assert(elems[0] == elems[0]);
    }
}

/// A switch reads as it stands, one that the property lacks reads off, and a property of another
/// kind has no switches.
pub proof fn law_switch_reads_as_it_stands(elems: Vec<SwitchElement>, name: Seq<char>, i: int)
    requires
        0 <= i < elems@.len(),
        forall|j: int| 0 <= j < i ==> (#[trigger] elems@[j]).name@ != name,
    ensures
        elems@[i].name@ == name ==> switch_state(Reading::Switches(elems), name) == Some(
            elems@[i].on,
        ),
        (forall|j: int| 0 <= j < elems@.len() ==> (#[trigger] elems@[j]).name@ != name)
            ==> switch_state(Reading::Switches(elems), name) == Some(false),
        switch_state(Reading::Other, name) is None,
        forall|v: Vec<NumberElement>| #[trigger]
            switch_state(Reading::Numbers(v), name) is None,
        forall|v: Vec<TextElement>| #[trigger] switch_state(Reading::Texts(v), name) is None,
{
    law_switches_are_found_by_name(elems@, name);
    if let Some(e) = switch_named(elems@, name) {
        let k = choose|k: int|
            {
                &&& 0 <= k < elems@.len()
                &&& #[trigger] elems@[k] == e
                &&& e.name@ == name
                &&& forall|j: int| 0 <= j < k ==> (#[trigger] elems@[j]).name@ != name
            };
        if elems@[i].name@ == name {
            if k < i {
                assert(elems@[k].name@ != name);
            } else if i < k {
                assert(elems@[i].name@ != name);
            }
        }
    }
}

} // verus!
