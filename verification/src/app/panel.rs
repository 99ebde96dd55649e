//! The generic INDI control panel: pending edits, and the commands that its rows send.

use crate::bus::{Command, IndiNumber, IndiProp, IndiSwitch, IndiSwitchRule, IndiText, IndiValue};
use crate::scalar::Scalar;
use crate::text;
use vstd::prelude::*;

verus! {

/// What the entries hold by key; of two entries with one key the later.
pub open spec fn edits<V>(entries: Seq<(String, V)>) -> Map<Seq<char>, V>
    decreases entries.len(),
{
    if entries.len() == 0 {
        Map::empty()
    } else {
        edits(entries.drop_last()).insert(entries.last().0@, entries.last().1)
    }
}

/// Pending edits of the panel, by the path of what is edited. They are seeded from the driver's
/// value and pushed only when the user asks for it.
#[derive(Debug)]
pub struct Edits<V> {
    entries: Vec<(String, V)>,
}

impl<V> View for Edits<V> {
    type V = Map<Seq<char>, V>;

    closed spec fn view(&self) -> Map<Seq<char>, V> {
        edits(self.entries@)
    }
}

/// The latest of the entries with a key, if any has it.
proof fn lemma_latest_entry<V>(entries: Seq<(String, V)>, key: Seq<char>, at: int)
    requires
        -1 <= at < entries.len(),
        at >= 0 ==> entries[at].0@ == key,
        forall|j: int| at < j < entries.len() ==> (#[trigger] entries[j]).0@ != key,
    ensures
        edits(entries).contains_key(key) <==> at >= 0,
        at >= 0 ==> edits(entries)[key] == entries[at].1,
    decreases entries.len(),
{
    if entries.len() > 0 && at < entries.len() - 1 {
        let rest = entries.drop_last();
        assert(entries.last().0@ != key);
        assert forall|j: int| at < j < rest.len() implies (#[trigger] rest[j]).0@ != key by {
            assert(rest[j] == entries[j]);
        }
        lemma_latest_entry(rest, key, at);
    }
}

/// Replacing the latest entry with a key is an insertion.
proof fn lemma_latest_replaced<V>(entries: Seq<(String, V)>, at: int, entry: (String, V))
    requires
        0 <= at < entries.len(),
        entries[at].0@ == entry.0@,
        forall|j: int| at < j < entries.len() ==> (#[trigger] entries[j]).0@ != entry.0@,
    ensures
        edits(entries.update(at, entry)) =~= edits(entries).insert(entry.0@, entry.1),
    decreases entries.len(),
{
    let now = entries.update(at, entry);
    if at == entries.len() - 1 {
        assert(now.drop_last() =~= entries.drop_last());
    } else {
        let rest = entries.drop_last();
        assert(now.drop_last() =~= rest.update(at, entry));
        assert forall|j: int| at < j < rest.len() implies (#[trigger] rest[j]).0@ != entry.0@ by {
            assert(rest[j] == entries[j]);
        }
        lemma_latest_replaced(rest, at, entry);
        assert(entries.last().0@ != entry.0@);
    }
}

impl<V> Edits<V> {
    /// No edits.
    pub fn new() -> (e: Self)
        ensures
            e@ == Map::<Seq<char>, V>::empty(),
    {
        Edits { entries: Vec::new() }
    }

    /// One past the place of the latest entry with a key; zero where there is none.
    fn find(&self, key: &str) -> (at: usize)
        ensures
            at <= self.entries@.len(),
            at > 0 ==> self.entries@[at - 1].0@ == key@,
            forall|j: int| at <= j < self.entries@.len() ==> (#[trigger] self.entries@[j]).0@ != key@,
            self@.contains_key(key@) <==> at > 0,
            at > 0 ==> self@[key@] == self.entries@[at - 1].1,
    {
        let mut at: usize = self.entries.len();
        while at > 0
            invariant
                at <= self.entries@.len(),
                forall|j: int|
                    at <= j < self.entries@.len() ==> (#[trigger] self.entries@[j]).0@ != key@,
            decreases at,
        {
            if text::same(self.entries[at - 1].0.as_str(), key) {
                proof {
                    lemma_latest_entry(self.entries@, key@, at - 1);
                }
                return at;
            }
            at = at - 1;
        }
        proof {
            lemma_latest_entry(self.entries@, key@, -1);
        }
        0
    }

    /// The pending edit of a path.
    pub fn get(&self, key: &str) -> (v: Option<&V>)
        ensures
            match v {
                Some(v) => self@.contains_key(key@) && *v == self@[key@],
                None => !self@.contains_key(key@),
            },
    {
        let at: usize = self.find(key);
        if at > 0 {
            Some(&self.entries[at - 1].1)
        } else {
            None
        }
    }

    /// Set the pending edit of a path.
    pub fn set(&mut self, key: String, value: V)
        ensures
            final(self)@ == old(self)@.insert(key@, value),
    {
        let at: usize = self.find(key.as_str());
        let ghost before = self.entries@;
        let ghost entry = (key, value);
        if at > 0 {
            proof {
                lemma_latest_replaced(before, at - 1, entry);
            }
            self.entries.set(at - 1, (key, value));
        } else {
            self.entries.push((key, value));
            assert(self.entries@.drop_last() =~= before);
        }
    }

    /// Give a path its first pending edit; one that it has stays.
    pub fn seed(&mut self, key: String, value: V)
        ensures
            final(self)@ == if old(self)@.contains_key(key@) {
                old(self)@
            } else {
                old(self)@.insert(key@, value)
            },
    {
        let at: usize = self.find(key.as_str());
        if at == 0 {
            let ghost before = self.entries@;
            self.entries.push((key, value));
            assert(self.entries@.drop_last() =~= before);
        }
    }
}

/// The path of an element: device, property and element, with slashes between.
pub open spec fn path(device: Seq<char>, prop: Seq<char>, elem: Seq<char>) -> Seq<char> {
    device + "/"@ + prop + "/"@ + elem
}

/// The path of an element.
pub fn element_path(device: &str, prop: &str, elem: &str) -> (p: String)
    ensures
        p@ == path(device@, prop@, elem@),
{
    device.to_owned().concat("/").concat(prop).concat("/").concat(elem)
}

/// The value at a path: its pending edit, or else what the driver has.
pub open spec fn pending<V>(edits: Map<Seq<char>, V>, key: Seq<char>, driver: V) -> V {
    if edits.contains_key(key) {
        edits[key]
    } else {
        driver
    }
}

/// Every element of a number property with its pending value.
pub open spec fn numbers_asked(
    elems: Seq<(String, Scalar)>,
    items: Seq<IndiNumber>,
    device: Seq<char>,
    prop: Seq<char>,
    pending_edits: Map<Seq<char>, Scalar>,
) -> bool {
    &&& elems.len() == items.len()
    &&& forall|i: int|
        0 <= i < items.len() ==> {
            &&& (#[trigger] elems[i]).0@ == items[i].name@
            &&& elems[i].1 == pending(
                pending_edits,
                path(device, prop, items[i].name@),
                items[i].value,
            )
        }
}

/// The "Set" button of a number property: its pending values, where it can be written.
pub fn set_numbers(device: &str, prop: &IndiProp, edits: &Edits<Scalar>) -> (cmd: Option<Command>)
    ensures
        cmd is Some <==> prop.writable && prop.value is Number,
        cmd matches Some(c) ==> {
            &&& c matches Command::SetIndiNumber { device: d, prop: p, elems }
            &&& d@ == device@
            &&& p@ == prop.name@
            &&& numbers_asked(elems@, prop.value->Number_0@, device@, prop.name@, edits@)
        },
{
    if !prop.writable {
        return None;
    }
    match &prop.value {
        IndiValue::Number(items) => {
            let mut elems: Vec<(String, Scalar)> = Vec::new();
            let mut i: usize = 0;
            while i < items.len()
                invariant
                    i <= items@.len(),
                    elems@.len() == i,
                    forall|j: int|
                        0 <= j < i ==> {
                            &&& (#[trigger] elems@[j]).0@ == items@[j].name@
                            &&& elems@[j].1 == pending(
                                edits@,
                                path(device@, prop.name@, items@[j].name@),
                                items@[j].value,
                            )
                        },
                decreases items@.len() - i,
            {
                let n = &items[i];
                let key = element_path(device, prop.name.as_str(), n.name.as_str());
                let value: Scalar = match edits.get(key.as_str()) {
                    Some(v) => *v,
                    None => n.value,
                };
                elems.push((n.name.clone(), value));
                i = i + 1;
            }
            Some(
                Command::SetIndiNumber {
                    device: device.to_owned(),
                    prop: prop.name.clone(),
                    elems,
                },
            )
        },
        _ => None,
    }
}

/// Every element of a text property with its pending value.
pub open spec fn texts_asked(
    elems: Seq<(String, String)>,
    items: Seq<IndiText>,
    device: Seq<char>,
    prop: Seq<char>,
    pending_edits: Map<Seq<char>, String>,
) -> bool {
    &&& elems.len() == items.len()
    &&& forall|i: int|
        0 <= i < items.len() ==> {
            &&& (#[trigger] elems[i]).0@ == items[i].name@
            &&& elems[i].1@ == pending(
                pending_edits,
                path(device, prop, items[i].name@),
                items[i].value,
            )@
        }
}

/// The "Set" button of a text property: its pending values, where it can be written.
pub fn set_texts(device: &str, prop: &IndiProp, edits: &Edits<String>) -> (cmd: Option<Command>)
    ensures
        cmd is Some <==> prop.writable && prop.value is Text,
        cmd matches Some(c) ==> {
            &&& c matches Command::SetIndiText { device: d, prop: p, elems }
            &&& d@ == device@
            &&& p@ == prop.name@
            &&& texts_asked(elems@, prop.value->Text_0@, device@, prop.name@, edits@)
        },
{
    if !prop.writable {
        return None;
    }
    match &prop.value {
        IndiValue::Text(items) => {
            let mut elems: Vec<(String, String)> = Vec::new();
            let mut i: usize = 0;
            while i < items.len()
                invariant
                    i <= items@.len(),
                    elems@.len() == i,
                    forall|j: int|
                        0 <= j < i ==> {
                            &&& (#[trigger] elems@[j]).0@ == items@[j].name@
                            &&& elems@[j].1@ == pending(
                                edits@,
                                path(device@, prop.name@, items@[j].name@),
                                items@[j].value,
                            )@
                        },
                decreases items@.len() - i,
            {
                let t = &items[i];
                let key = element_path(device, prop.name.as_str(), t.name.as_str());
                let value: String = match edits.get(key.as_str()) {
                    Some(v) => v.clone(),
                    None => t.value.clone(),
                };
                elems.push((t.name.clone(), value));
                i = i + 1;
            }
            Some(
                Command::SetIndiText {
                    device: device.to_owned(),
                    prop: prop.name.clone(),
                    elems,
                },
            )
        },
        _ => None,
    }
}

/// What a click on a switch asks for: of any-of-many the switch toggled; of the other rules the
/// switch turned on where it is off, and the driver clears its siblings.
pub open spec fn switch_wanted(rule: IndiSwitchRule, on: bool) -> Option<bool> {
    match rule {
        IndiSwitchRule::AnyOfMany => Some(!on),
        _ => if on {
            None
        } else {
            Some(true)
        },
    }
}

/// Whether a click on switch `index` of a property asks for something.
pub open spec fn switch_answers(prop: IndiProp, index: int) -> bool {
    &&& prop.writable
    &&& prop.value matches IndiValue::Switch { rule, items }
    &&& 0 <= index < items@.len()
    &&& switch_wanted(rule, items@[index].on) is Some
}

/// A click on switch `index` of a property, where the property can be written.
pub fn click_switch(device: &str, prop: &IndiProp, index: usize) -> (cmd: Option<Command>)
    ensures
        cmd is Some <==> switch_answers(*prop, index as int),
        cmd matches Some(c) ==> {
            let sw = prop.value->items@[index as int];
            &&& c matches Command::SetIndiSwitch { device: d, prop: p, elems }
            &&& d@ == device@
            &&& p@ == prop.name@
            &&& elems@.len() == 1
            &&& elems@[0].0@ == sw.name@
            &&& Some(elems@[0].1) == switch_wanted(prop.value->rule, sw.on)
        },
{
    if !prop.writable {
        return None;
    }
    match &prop.value {
        IndiValue::Switch { rule, items } => {
            if index >= items.len() {
                return None;
            }
            let sw: &IndiSwitch = &items[index];
            let wanted: bool = match rule {
                IndiSwitchRule::AnyOfMany => !sw.on,
                _ => {
                    if sw.on {
                        return None;
                    }
                    true
                },
            };
            let mut elems: Vec<(String, bool)> = Vec::new();
            elems.push((sw.name.clone(), wanted));
            Some(
                Command::SetIndiSwitch {
                    device: device.to_owned(),
                    prop: prop.name.clone(),
                    elems,
                },
            )
        },
        _ => None,
    }
}

/// A click never asks for what already is.
pub proof fn law_click_asks_for_a_change(rule: IndiSwitchRule, on: bool)
    ensures
        switch_wanted(rule, on) != Some(on),
{
}

/// A pending edit is known by device, property and element, each part in its place.
pub proof fn law_edits_are_known_by_path(device: Seq<char>, prop: Seq<char>, elem: Seq<char>)
    ensures
        path(device, prop, elem) == device + "/"@ + prop + "/"@ + elem,
        path(device, prop, elem).len() == device.len() + prop.len() + elem.len() + 2,
{
    reveal_strlit("/");
}

/// What was typed is sent; what was not typed is sent as the driver reported it.
pub proof fn law_typed_values_are_sent<V>(
    edits: Map<Seq<char>, V>,
    key: Seq<char>,
    typed: V,
    driver: V,
)
    ensures
        pending(edits.insert(key, typed), key, driver) == typed,
        pending(edits.remove(key), key, driver) == driver,
        pending(Map::<Seq<char>, V>::empty(), key, driver) == driver,
{
}

/// All numbers of a property are sent, in order and under their names: the one that was typed as
/// typed, all others as the driver reported them.
pub proof fn law_all_numbers_are_sent(
    elems: Seq<(String, Scalar)>,
    items: Seq<IndiNumber>,
    device: Seq<char>,
    prop: Seq<char>,
    edits: Map<Seq<char>, Scalar>,
    i: int,
)
    requires
        numbers_asked(elems, items, device, prop, edits),
        0 <= i < items.len(),
    ensures
        elems.len() == items.len(),
        elems[i].0@ == items[i].name@,
        !edits.contains_key(device + "/"@ + prop + "/"@ + items[i].name@) ==> elems[i].1
            == items[i].value,
        edits.contains_key(device + "/"@ + prop + "/"@ + items[i].name@) ==> elems[i].1
            == edits[device + "/"@ + prop + "/"@ + items[i].name@],
{
}

/// All texts of a property are sent, in order and under their names: the one that was typed as typed,
/// all others as the driver reported them.
pub proof fn law_all_texts_are_sent(
    elems: Seq<(String, String)>,
    items: Seq<IndiText>,
    device: Seq<char>,
    prop: Seq<char>,
    edits: Map<Seq<char>, String>,
    i: int,
)
    requires
        texts_asked(elems, items, device, prop, edits),
        0 <= i < items.len(),
    ensures
        elems.len() == items.len(),
        elems[i].0@ == items[i].name@,
        !edits.contains_key(device + "/"@ + prop + "/"@ + items[i].name@) ==> elems[i].1@
            == items[i].value@,
        edits.contains_key(device + "/"@ + prop + "/"@ + items[i].name@) ==> elems[i].1@
            == edits[device + "/"@ + prop + "/"@ + items[i].name@]@,
{
}

/// Where any number of switches may be on, a click toggles; where one at most is on, it turns on what
/// is off, and a switch that is on stays.
pub proof fn law_clicks_follow_the_rule(on: bool)
    ensures
        switch_wanted(IndiSwitchRule::AnyOfMany, on) == Some(!on),
        switch_wanted(IndiSwitchRule::OneOfMany, false) == Some(true),
        switch_wanted(IndiSwitchRule::AtMostOne, false) == Some(true),
        switch_wanted(IndiSwitchRule::OneOfMany, true) is None,
        switch_wanted(IndiSwitchRule::AtMostOne, true) is None,
{
}

/// A switch answers a click where its property can be written and the click would change something.
pub proof fn law_switches_answer_where_writable(
    prop: IndiProp,
    rule: IndiSwitchRule,
    items: Vec<IndiSwitch>,
    index: int,
)
    requires
        prop.value == (IndiValue::Switch { rule, items }),
    ensures
        switch_answers(prop, index) <==> {
            &&& prop.writable
            &&& 0 <= index < items@.len()
            &&& rule == IndiSwitchRule::AnyOfMany || !items@[index].on
        },
{
}

/// Later edits of the same element replace earlier ones, and leave those of other elements.
pub proof fn law_latest_edit_counts<V>(entries: Seq<(String, V)>, key: String, value: V)
    ensures
        edits(Seq::<(String, V)>::empty()) == Map::<Seq<char>, V>::empty(),
        edits(entries.push((key, value))).contains_key(key@),
        edits(entries.push((key, value)))[key@] == value,
        forall|other: Seq<char>|
            other != key@ ==> (#[trigger] edits(entries.push((key, value))).contains_key(other)
                <==> edits(entries).contains_key(other)),
        forall|other: Seq<char>|
            other != key@ && edits(entries).contains_key(other) ==> #[trigger] edits(
                entries.push((key, value)),
            )[other] == edits(entries)[other],
{
    assert(entries.push((key, value)).drop_last() =~= entries);
}

} // verus!
