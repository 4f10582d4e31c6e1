//! Capability dispatch over heterogeneous, type-erased behaviors.
//!
//! A capability is a named behavior that several unrelated kinds of
//! value can carry out; here each capability is a tagged union whose
//! variants are the concrete implementers, invoked uniformly through
//! methods on the union.  The [`PluginManager`] is the registry proper:
//! it owns its entries, appends and never reorders them, and runs every
//! registered behavior in insertion order.  The behaviors themselves are
//! pure here — each returns the text it stands for, and printing it is
//! the caller's business.

use vstd::prelude::*;

verus! {

/// An animal that can name itself and make its sound.
pub enum Animal {
    /// A dog, who woofs.
    Dog {
        /// The dog's given name.
        name: String,
    },
    /// A cat, who meows.
    Cat {
        /// The cat's given name.
        name: String,
    },
}

impl Animal {
    /// The animal's given name.
    pub open spec fn spec_name(self) -> Seq<char> {
        match self {
            Animal::Dog { name } => name@,
            Animal::Cat { name } => name@,
        }
    }

    /// The sound the animal's kind makes.
    pub open spec fn spec_sound(self) -> Seq<char> {
        match self {
            Animal::Dog { .. } => "Woof!"@,
            Animal::Cat { .. } => "Meow!"@,
        }
    }

    /// The sound of this animal's kind.
    pub fn make_sound(&self) -> (r: String)
        ensures
            r@ == self.spec_sound(),
    {
        match self {
            Animal::Dog { .. } => "Woof!".to_owned(),
            Animal::Cat { .. } => "Meow!".to_owned(),
        }
    }

    /// The animal's given name.
    pub fn name(&self) -> (r: String)
        ensures
            r@ == self.spec_name(),
    {
        match self {
            Animal::Dog { name } => name.clone(),
            Animal::Cat { name } => name.clone(),
        }
    }
}

/// A pet whose skill grows by one with each training session.
pub struct Pet {
    /// The pet's given name.
    pub name: String,
    /// How well trained the pet is.
    pub skill: u32,
}

impl Pet {
    /// One training session; the skill has a machine limit, which the
    /// caller keeps away from.
    pub fn train(&mut self)
        requires
            old(self).skill < u32::MAX,
        ensures
            final(self).skill == old(self).skill + 1,
            final(self).name == old(self).name,
    {
        self.skill = self.skill + 1;
    }

    /// How well trained the pet is.
    pub fn skill_level(&self) -> (r: u32)
        ensures
            r == self.skill,
    {
        self.skill
    }
}

/// A shape that can describe how it is drawn.
#[derive(Clone, Copy, Debug)]
pub enum Shape {
    /// A circle.
    Circle,
    /// A rectangle.
    Rectangle,
}

impl Shape {
    /// The line drawing this shape announces.
    pub open spec fn spec_draw(self) -> Seq<char> {
        match self {
            Shape::Circle => "Drawing a circle"@,
            Shape::Rectangle => "Drawing a rectangle"@,
        }
    }

    /// Announces the drawing of this shape.
    pub fn draw(&self) -> (r: String)
        ensures
            r@ == self.spec_draw(),
    {
        match self {
            Shape::Circle => "Drawing a circle".to_owned(),
            Shape::Rectangle => "Drawing a rectangle".to_owned(),
        }
    }
}

/// One registrable behavior: it has a name and does one thing when
/// executed.
#[derive(Clone, Copy, Debug)]
pub enum Plugin {
    /// Logs data.
    Logger,
    /// Collects metrics.
    Metrics,
}

impl Plugin {
    /// The behavior's name.
    pub open spec fn spec_name(self) -> Seq<char> {
        match self {
            Plugin::Logger => "Logger"@,
            Plugin::Metrics => "Metrics"@,
        }
    }

    /// The line the behavior produces when executed.
    pub open spec fn spec_message(self) -> Seq<char> {
        match self {
            Plugin::Logger => "[Logger] Logging data..."@,
            Plugin::Metrics => "[Metrics] Collecting metrics..."@,
        }
    }

    /// The behavior's name.
    pub fn name(&self) -> (r: String)
        ensures
            r@ == self.spec_name(),
    {
        match self {
            Plugin::Logger => "Logger".to_owned(),
            Plugin::Metrics => "Metrics".to_owned(),
        }
    }

    /// Carries the behavior out and reports what it did.
    pub fn execute(&self) -> (r: String)
        ensures
            r@ == self.spec_message(),
    {
        match self {
            Plugin::Logger => "[Logger] Logging data...".to_owned(),
            Plugin::Metrics => "[Metrics] Collecting metrics...".to_owned(),
        }
    }
}

/// An ordered registry of owned behaviors, invoked uniformly.
pub struct PluginManager {
    /// The registered behaviors, in insertion order.
    pub plugins: Vec<Plugin>,
}

impl PluginManager {
    /// An empty registry.
    pub fn new() -> (r: PluginManager)
        ensures
            r.plugins@ == Seq::<Plugin>::empty(),
    {
        PluginManager { plugins: Vec::new() }
    }

    /// Appends one behavior; duplicates are kept, and insertion order
    /// is preserved.
    pub fn register(&mut self, plugin: Plugin)
        ensures
            final(self).plugins@ == old(self).plugins@.push(plugin),
    {
        self.plugins.push(plugin);
    }

    /// Runs every registered behavior in insertion order and returns,
    /// for each, its name and the line its execution produced.
    #[verifier::loop_isolation(false)]
    pub fn run_all(&self) -> (r: Vec<(String, String)>)
        ensures
            r@.len() == self.plugins@.len(),
            forall|i: int|
                0 <= i < r@.len() ==> (#[trigger] r@[i]).0@ == self.plugins@[i].spec_name()
                    && r@[i].1@ == self.plugins@[i].spec_message(),
    {
        let mut out: Vec<(String, String)> = Vec::new();
        let mut j: usize = 0;
        while j < self.plugins.len()
            invariant
                j <= self.plugins@.len(),
                out@.len() == j,
                forall|i: int|
                    0 <= i < j ==> (#[trigger] out@[i]).0@ == self.plugins@[i].spec_name()
                        && out@[i].1@ == self.plugins@[i].spec_message(),
            decreases self.plugins@.len() - j,
        {
            let entry = &self.plugins[j];
            out.push((entry.name(), entry.execute()));
            j = j + 1;
        }
        out
    }
}

} // verus!
