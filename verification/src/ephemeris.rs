//! Solar-system bodies for "Go To" pointing.

use vstd::prelude::*;

verus! {

/// A solar-system body the user can slew to.
#[derive(Clone, Copy, Debug, PartialEq, Eq, Structural)]
pub enum SolarObject {
    Sun,
    Moon,
    Mercury,
    Venus,
    Mars,
    Jupiter,
    Saturn,
    Uranus,
    Neptune,
}

impl SolarObject {
    /// Human-friendly name.
    pub open spec fn name(&self) -> Seq<char> {
        match self {
            SolarObject::Sun => "Sun"@,
            SolarObject::Moon => "Moon"@,
            SolarObject::Mercury => "Mercury"@,
            SolarObject::Venus => "Venus"@,
            SolarObject::Mars => "Mars"@,
            SolarObject::Jupiter => "Jupiter"@,
            SolarObject::Saturn => "Saturn"@,
            SolarObject::Uranus => "Uranus"@,
            SolarObject::Neptune => "Neptune"@,
        }
    }

    /// All targets, in display order (Sun, Moon, then planets outward).
    pub fn all() -> (targets: [SolarObject; 9])
        ensures
            targets@ == seq![
                SolarObject::Sun,
                SolarObject::Moon,
                SolarObject::Mercury,
                SolarObject::Venus,
                SolarObject::Mars,
                SolarObject::Jupiter,
                SolarObject::Saturn,
                SolarObject::Uranus,
                SolarObject::Neptune,
            ],
            forall|o: SolarObject| #[trigger] targets@.contains(o),
    {
        let targets: [SolarObject; 9] = [
            SolarObject::Sun,
            SolarObject::Moon,
            SolarObject::Mercury,
            SolarObject::Venus,
            SolarObject::Mars,
            SolarObject::Jupiter,
            SolarObject::Saturn,
            SolarObject::Uranus,
            SolarObject::Neptune,
        ];
        proof {
            assert(targets@ =~= seq![
                SolarObject::Sun,
                SolarObject::Moon,
                SolarObject::Mercury,
                SolarObject::Venus,
                SolarObject::Mars,
                SolarObject::Jupiter,
                SolarObject::Saturn,
                SolarObject::Uranus,
                SolarObject::Neptune,
            ]);
            assert forall|o: SolarObject| #[trigger] targets@.contains(o) by {
                match o {
                    SolarObject::Sun => assert(targets@[0] == o),
                    SolarObject::Moon => assert(targets@[1] == o),
                    SolarObject::Mercury => assert(targets@[2] == o),
                    SolarObject::Venus => assert(targets@[3] == o),
                    SolarObject::Mars => assert(targets@[4] == o),
                    SolarObject::Jupiter => assert(targets@[5] == o),
                    SolarObject::Saturn => assert(targets@[6] == o),
                    SolarObject::Uranus => assert(targets@[7] == o),
                    SolarObject::Neptune => assert(targets@[8] == o),
                }
            }
        }
        targets
    }

    /// Human-friendly name.
    pub fn label(&self) -> (s: &'static str)
        ensures
            s@ == self.name(),
    {
        match self {
            SolarObject::Sun => "Sun",
            SolarObject::Moon => "Moon",
            SolarObject::Mercury => "Mercury",
            SolarObject::Venus => "Venus",
            SolarObject::Mars => "Mars",
            SolarObject::Jupiter => "Jupiter",
            SolarObject::Saturn => "Saturn",
            SolarObject::Uranus => "Uranus",
            SolarObject::Neptune => "Neptune",
        }
    }
}

/// Every body is called by its own name, and no two share one.
pub proof fn law_bodies_have_their_names(a: SolarObject, b: SolarObject)
    ensures
        SolarObject::Sun.name() == "Sun"@,
        SolarObject::Moon.name() == "Moon"@,
        SolarObject::Mercury.name() == "Mercury"@,
        SolarObject::Venus.name() == "Venus"@,
        SolarObject::Mars.name() == "Mars"@,
        SolarObject::Jupiter.name() == "Jupiter"@,
        SolarObject::Saturn.name() == "Saturn"@,
        SolarObject::Uranus.name() == "Uranus"@,
        SolarObject::Neptune.name() == "Neptune"@,
        a != b ==> a.name() != b.name(),
{
    reveal_strlit("Sun");
    reveal_strlit("Moon");
    reveal_strlit("Mercury");
    reveal_strlit("Venus");
    reveal_strlit("Mars");
    reveal_strlit("Jupiter");
    reveal_strlit("Saturn");
    reveal_strlit("Uranus");
    reveal_strlit("Neptune");
    assert("Moon"@.len() == 4 && "Mars"@.len() == 4 && "Moon"@[1] == 'o' && "Mars"@[1] == 'a');
    assert("Saturn"@.len() == 6 && "Uranus"@.len() == 6 && "Saturn"@[0] == 'S' && "Uranus"@[0]
        == 'U');
    assert("Mercury"@.len() == 7 && "Jupiter"@.len() == 7 && "Neptune"@.len() == 7);
    assert("Mercury"@[0] == 'M' && "Jupiter"@[0] == 'J' && "Neptune"@[0] == 'N');
    assert("Sun"@.len() == 3 && "Venus"@.len() == 5);
}

} // verus!
