//! A trait of speaking animals, and the sounds a dog and a cat make.

use vstd::prelude::*;

verus! {

/// Something that makes a fixed sound.
pub trait Animal {
    /// The sound this animal makes.
    spec fn sound(&self) -> Seq<char>;

    /// Speak: return exactly this animal's sound.
    fn speak(&self) -> (r: &'static str)
        ensures
            r@ == self.sound(),
    ;
}

pub struct Dog;

impl Animal for Dog {
    open spec fn sound(&self) -> Seq<char> {
        "Woof!"@
    }

    fn speak(&self) -> (r: &'static str) {
        "Woof!"
    }
}

pub struct Cat;

impl Animal for Cat {
    open spec fn sound(&self) -> Seq<char> {
        "Meow!"@
    }

    fn speak(&self) -> (r: &'static str) {
        "Meow!"
    }
}

/// Let a dog and a cat speak, in that order, and collect what they said.
pub fn example_trait_objects() -> (r: Vec<&'static str>)
    ensures
        r@.len() == 2,
        r@[0]@ == "Woof!"@,
        r@[1]@ == "Meow!"@,
{
    let mut sounds: Vec<&'static str> = Vec::new();
    let dog = Dog;
    let cat = Cat;
    sounds.push(dog.speak());
    sounds.push(cat.speak());
    sounds
}

} // verus!
