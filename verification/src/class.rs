use vstd::prelude::*;

verus! {

/// A character's class: a cosmetic tag with no mechanical effect.
#[derive(Debug, Clone, Copy, PartialEq, Eq, Structural)]
pub enum Class {
    Rogue,
    Ranger,
    Warrior,
    Paladin,
    Monk,
}

pub open spec fn spec_class_description(c: Class) -> Seq<char> {
    match c {
        Class::Rogue => "Cunning and agile"@,
        Class::Ranger => "Skilled and versatile"@,
        Class::Warrior => "Strong and durable"@,
        Class::Paladin => "Righteous and balanced"@,
        Class::Monk => "Disciplined and wise"@,
    }
}

pub open spec fn spec_class_name(c: Class) -> Seq<char> {
    match c {
        Class::Rogue => "Rogue"@,
        Class::Ranger => "Ranger"@,
        Class::Warrior => "Warrior"@,
        Class::Paladin => "Paladin"@,
        Class::Monk => "Monk"@,
    }
}

impl Class {
    /// Flavor line shown beside the class.
    pub fn description(&self) -> (r: &'static str)
        ensures
            r@ == spec_class_description(*self),
    {
        match self {
            Class::Rogue => "Cunning and agile",
            Class::Ranger => "Skilled and versatile",
            Class::Warrior => "Strong and durable",
            Class::Paladin => "Righteous and balanced",
            Class::Monk => "Disciplined and wise",
        }
    }

    /// Display name of the class.
    pub fn name(&self) -> (r: &'static str)
        ensures
            r@ == spec_class_name(*self),
    {
        match self {
            Class::Rogue => "Rogue",
            Class::Ranger => "Ranger",
            Class::Warrior => "Warrior",
            Class::Paladin => "Paladin",
            Class::Monk => "Monk",
        }
    }

    /// Every class, in display order.
    pub fn all() -> (r: Vec<Class>)
        ensures
            r@ == seq![Class::Rogue, Class::Ranger, Class::Warrior, Class::Paladin, Class::Monk],
    {
        let mut v: Vec<Class> = Vec::new();
        v.push(Class::Rogue);
        v.push(Class::Ranger);
        v.push(Class::Warrior);
        v.push(Class::Paladin);
        v.push(Class::Monk);
        proof {
            assert(v@ =~= seq![
                Class::Rogue,
                Class::Ranger,
                Class::Warrior,
                Class::Paladin,
                Class::Monk,
            ]);
        }
        v
    }
}

} // verus!
