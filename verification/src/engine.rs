//! The engine's record of its settings and of the elements it knows by name.
use crate::geometry::Vec2;
use crate::utils::{CollisionBody, Element, ElementView};
use vstd::prelude::*;

verus! {

/// What an engine holds: the window's size in pixels, speed and
/// acceleration in thousandths, and the elements by name.
pub ghost struct EngineView {
    pub window_dimensions: Vec2<u32>,
    pub speed: i32,
    pub acceleration: i32,
    pub elements: Map<Seq<char>, ElementView>,
}

/// An element under its name.
struct Entry {
    name: String,
    element: Element,
}

/// Whether the entry at index `i` is called `name`.
spec fn has_name_at(entries: Seq<Entry>, name: Seq<char>, i: int) -> bool {
    0 <= i < entries.len() && entries[i].name@ == name
}

/// The elements of `entries` by name.
spec fn registry(entries: Seq<Entry>) -> Map<Seq<char>, ElementView> {
    Map::new(
        |name: Seq<char>| exists|i: int| has_name_at(entries, name, i),
        |name: Seq<char>| entries[choose|i: int| has_name_at(entries, name, i)].element@,
    )
}

/// No name stands twice among `entries`.
spec fn names_distinct(entries: Seq<Entry>) -> bool {
    forall|i: int, j: int|
        0 <= i < j < entries.len() ==> (#[trigger] entries[i]).name@ != (#[trigger] entries[j]).name@
}

/// With distinct names, the registry maps the name of each entry to that
/// entry's element.
proof fn lemma_registry_entry(entries: Seq<Entry>, i: int)
    requires
        names_distinct(entries),
        0 <= i < entries.len(),
    ensures
        registry(entries).contains_key(entries[i].name@),
        registry(entries)[entries[i].name@] == entries[i].element@,
{
    let name = entries[i].name@;
    assert(has_name_at(entries, name, i));
    let j = choose|j: int| has_name_at(entries, name, j);
    assert(j == i) by {
        if j < i {
            assert(entries[j].name@ != entries[i].name@);
        } else if i < j {
            assert(entries[i].name@ != entries[j].name@);
        }
    }
}

/// Replacing the entry at `i` by one of the same name maps that name to the
/// new element and leaves the other names as they were.
proof fn lemma_registry_update(entries: Seq<Entry>, i: int, entry: Entry)
    requires
        names_distinct(entries),
        has_name_at(entries, entry.name@, i),
    ensures
        names_distinct(entries.update(i, entry)),
        registry(entries.update(i, entry)) == registry(entries).insert(
            entry.name@,
            entry.element@,
        ),
{
    let after = entries.update(i, entry);
    assert forall|a: int, b: int| 0 <= a < b < after.len() implies (#[trigger] after[a]).name@ != (
    #[trigger] after[b]).name@ by {
        assert(entries[a].name@ != entries[b].name@);
    }
    let target = registry(entries).insert(entry.name@, entry.element@);
    assert forall|n: Seq<char>| registry(after).contains_key(n) == target.contains_key(n) by {
        if registry(after).contains_key(n) {
            let k = choose|k: int| has_name_at(after, n, k);
            assert(has_name_at(entries, n, k));
        }
        if registry(entries).contains_key(n) {
            let k = choose|k: int| has_name_at(entries, n, k);
            assert(has_name_at(after, n, k));
        }
        assert(has_name_at(after, entry.name@, i));
    }
    assert forall|n: Seq<char>| registry(after).contains_key(n) implies registry(after)[n]
        == target[n] by {
        let k = choose|k: int| has_name_at(after, n, k);
        lemma_registry_entry(after, k);
        lemma_registry_entry(entries, k);
    }
    assert(registry(after) =~= target);
}

/// Appending an entry under a name that is not yet there maps that name to
/// the new element and leaves the other names as they were.
proof fn lemma_registry_push(entries: Seq<Entry>, entry: Entry)
    requires
        names_distinct(entries),
        forall|i: int| !has_name_at(entries, entry.name@, i),
    ensures
        names_distinct(entries.push(entry)),
        registry(entries.push(entry)) == registry(entries).insert(entry.name@, entry.element@),
{
    let after = entries.push(entry);
    assert forall|a: int, b: int| 0 <= a < b < after.len() implies (#[trigger] after[a]).name@ != (
    #[trigger] after[b]).name@ by {
        if b < entries.len() {
            assert(entries[a].name@ != entries[b].name@);
        } else {
            assert(!has_name_at(entries, entry.name@, a));
        }
    }
    let target = registry(entries).insert(entry.name@, entry.element@);
    assert forall|n: Seq<char>| registry(after).contains_key(n) == target.contains_key(n) by {
        if registry(after).contains_key(n) {
            let k = choose|k: int| has_name_at(after, n, k);
            if k < entries.len() {
                assert(has_name_at(entries, n, k));
            }
        }
        if registry(entries).contains_key(n) {
            let k = choose|k: int| has_name_at(entries, n, k);
            assert(has_name_at(after, n, k));
        }
        assert(has_name_at(after, entry.name@, entries.len() as int));
    }
    assert forall|n: Seq<char>| registry(after).contains_key(n) implies registry(after)[n]
        == target[n] by {
        let k = choose|k: int| has_name_at(after, n, k);
        lemma_registry_entry(after, k);
        if k < entries.len() {
            assert(has_name_at(entries, n, k));
            lemma_registry_entry(entries, k);
        }
    }
    assert(registry(after) =~= target);
}

/// The settings of a running game and its elements, each under one name.
pub struct Engine {
    window_dimensions: Vec2<u32>,
    speed: i32,
    acceleration: i32,
    entries: Vec<Entry>,
}

impl View for Engine {
    type V = EngineView;

    closed spec fn view(&self) -> EngineView {
        EngineView {
            window_dimensions: self.window_dimensions,
            speed: self.speed,
            acceleration: self.acceleration,
            elements: registry(self.entries@),
        }
    }
}

impl Engine {
    #[verifier::type_invariant]
    spec fn well_formed(&self) -> bool {
        names_distinct(self.entries@)
    }

    /// An engine for a window of the given size, without elements.
    pub fn new(window_width: u32, window_height: u32, speed: i32, acceleration: i32) -> (r: Self)
        ensures
            r@ == (EngineView {
                window_dimensions: Vec2 { x: window_width, y: window_height },
                speed,
                acceleration,
                elements: Map::empty(),
            }),
    {
        let r = Self {
            window_dimensions: Vec2 { x: window_width, y: window_height },
            speed,
            acceleration,
            entries: Vec::new(),
        };
        assert(r@.elements =~= Map::empty());
        r
    }

    pub fn get_dimensions(&self) -> (r: Vec2<u32>)
        ensures
            r == self@.window_dimensions,
    {
        self.window_dimensions
    }

    pub fn get_speed(&self) -> (r: i32)
        ensures
            r == self@.speed,
    {
        self.speed
    }

    pub fn get_acceleration(&self) -> (r: i32)
        ensures
            r == self@.acceleration,
    {
        self.acceleration
    }

    /// The index of the entry called `name`.
    fn find(&self, name: &String) -> (r: Option<usize>)
        ensures
            match r {
                Some(i) => has_name_at(self.entries@, name@, i as int),
                None => forall|i: int| !has_name_at(self.entries@, name@, i),
            },
    {
        let mut i: usize = 0;
        while i < self.entries.len()
            invariant
                i <= self.entries.len(),
                forall|k: int| 0 <= k < i ==> !has_name_at(self.entries@, name@, k),
            decreases self.entries.len() - i,
        {
            if self.entries[i].name == *name {
                return Some(i);
            }
            i += 1;
        }
        None
    }

    /// The element called `name`, borrowed.
    pub(crate) fn element_ref(&self, name: &String) -> (r: Option<&Element>)
        ensures
            match r {
                Some(element) => self@.elements.contains_key(name@) && element@
                    == self@.elements[name@],
                None => !self@.elements.contains_key(name@),
            },
    {
        proof {
            use_type_invariant(self);
        }
        match self.find(name) {
            Some(i) => {
                proof {
                    lemma_registry_entry(self.entries@, i as int);
                }
                Some(&self.entries[i].element)
            },
            None => None,
        }
    }

    /// Files `element` under `name`, in place of an element of that name if
    /// there is one.
    pub fn add_element(&mut self, name: String, element: Element)
        ensures
            final(self)@ == (EngineView {
                elements: old(self)@.elements.insert(name@, element@),
                ..old(self)@
            }),
    {
        proof {
            use_type_invariant(&*self);
        }
        let ghost before = self.entries@;
        let found = self.find(&name);
        let mut entries: Vec<Entry> = Vec::new();
        std::mem::swap(&mut self.entries, &mut entries);
        match found {
            Some(i) => {
                proof {
                    lemma_registry_update(before, i as int, Entry { name, element });
                }
                entries.set(i, Entry { name, element });
            },
            None => {
                proof {
                    lemma_registry_push(before, Entry { name, element });
                }
                entries.push(Entry { name, element });
            },
        }
        std::mem::swap(&mut self.entries, &mut entries);
    }

    /// Builds an element at `(x, y)` with `body`, if one is given, and files
    /// it under `name`.
    pub fn create_element(&mut self, name: String, body: Option<CollisionBody>, x: i32, y: i32)
        ensures
            final(self)@ == (EngineView {
                elements: old(self)@.elements.insert(
                    name@,
                    ElementView {
                        bodies: match body {
                            Some(b) => seq![b@],
                            None => Seq::empty(),
                        },
                        pos: Vec2 { x, y },
                    },
                ),
                ..old(self)@
            }),
    {
        self.add_element(name, Element::new(body, x, y));
    }

    /// A copy of the element called `name`, if there is one.
    pub fn get_element(&self, name: String) -> (r: Option<Element>)
        ensures
            match r {
                Some(element) => self@.elements.contains_key(name@) && element@
                    == self@.elements[name@],
                None => !self@.elements.contains_key(name@),
            },
    {
        match self.element_ref(&name) {
            Some(element) => Some(element.clone()),
            None => None,
        }
    }
}

} // verus!
