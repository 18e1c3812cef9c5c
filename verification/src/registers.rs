//! Named registers for yanked and searched text.
//!
//! A register holds an ordered list of values, most recent first.
//! `write` replaces a register's whole contents, `push` adds one value
//! at the front, `first` reads the most recent value.

use vstd::prelude::*;

verus! {

/// One named register and its values.
pub struct RegisterSlot {
    pub name: char,
    pub values: Vec<Vec<char>>,
}

/// The register store.
pub struct Registers {
    pub slots: Vec<RegisterSlot>,
}

/// The values of a list of fragments, as sequences.
pub open spec fn values_view(vs: Seq<Vec<char>>) -> Seq<Seq<char>> {
    vs.map_values(|v: Vec<char>| v@)
}

/// The contents of register `name`: the values of its first slot.
pub open spec fn reg_lookup(slots: Seq<RegisterSlot>, name: char) -> Option<Seq<Seq<char>>>
    decreases slots.len(),
{
    if slots.len() == 0 {
        None
    } else if slots[0].name == name {
        Some(values_view(slots[0].values@))
    } else {
        reg_lookup(slots.drop_first(), name)
    }
}

proof fn lemma_lookup_first_match(slots: Seq<RegisterSlot>, name: char, i: int)
    requires
        0 <= i < slots.len(),
        slots[i].name == name,
        forall|j: int| 0 <= j < i ==> (#[trigger] slots[j]).name != name,
    ensures
        reg_lookup(slots, name) == Some(values_view(slots[i].values@)),
    decreases i,
{
    if i > 0 {
        assert(slots.drop_first()[i - 1] == slots[i]);
        assert(forall|j: int|
            0 <= j < i - 1 ==> (#[trigger] slots.drop_first()[j]).name != name);
        lemma_lookup_first_match(slots.drop_first(), name, i - 1);
    }
}

proof fn lemma_lookup_no_match(slots: Seq<RegisterSlot>, name: char)
    requires
        forall|j: int| 0 <= j < slots.len() ==> (#[trigger] slots[j]).name != name,
    ensures
        reg_lookup(slots, name) is None,
    decreases slots.len(),
{
    if slots.len() > 0 {
        assert(forall|j: int|
            0 <= j < slots.drop_first().len() ==> (#[trigger] slots.drop_first()[j]).name != name);
        lemma_lookup_no_match(slots.drop_first(), name);
    }
}

proof fn lemma_lookup_update(slots: Seq<RegisterSlot>, i: int, slot: RegisterSlot, name: char)
    requires
        0 <= i < slots.len(),
        slots[i].name == slot.name,
        name != slot.name,
    ensures
        reg_lookup(slots.update(i, slot), name) == reg_lookup(slots, name),
    decreases i,
{
    let u = slots.update(i, slot);
    if i == 0 {
        assert(u[0] == slot);
        assert(u.drop_first() =~= slots.drop_first());
        assert(slots[0].name == slot.name);
        assert(reg_lookup(u, name) == reg_lookup(u.drop_first(), name));
        assert(reg_lookup(slots, name) == reg_lookup(slots.drop_first(), name));
    } else {
        assert(u[0] == slots[0]);
        if slots[0].name == name {
            assert(reg_lookup(slots, name) == Some(values_view(slots[0].values@)));
            assert(reg_lookup(u, name) == Some(values_view(u[0].values@)));
        } else {
            assert(u.drop_first() =~= slots.drop_first().update(i - 1, slot));
            assert(slots.drop_first()[i - 1] == slots[i]);
            lemma_lookup_update(slots.drop_first(), i - 1, slot, name);
            assert(reg_lookup(u, name) == reg_lookup(u.drop_first(), name));
            assert(reg_lookup(slots, name) == reg_lookup(slots.drop_first(), name));
        }
    }
}

proof fn lemma_lookup_push(slots: Seq<RegisterSlot>, slot: RegisterSlot, name: char)
    requires
        name != slot.name,
    ensures
        reg_lookup(slots.push(slot), name) == reg_lookup(slots, name),
    decreases slots.len(),
{
    let u = slots.push(slot);
    if slots.len() == 0 {
        assert(u[0] == slot);
        assert(u.drop_first() =~= Seq::<RegisterSlot>::empty());
    } else {
        assert(u[0] == slots[0]);
        if slots[0].name != name {
            assert(u.drop_first() =~= slots.drop_first().push(slot));
            lemma_lookup_push(slots.drop_first(), slot, name);
            assert(reg_lookup(u, name) == reg_lookup(u.drop_first(), name));
            assert(reg_lookup(slots, name) == reg_lookup(slots.drop_first(), name));
        } else {
            assert(reg_lookup(u, name) == Some(values_view(u[0].values@)));
            assert(reg_lookup(slots, name) == Some(values_view(slots[0].values@)));
        }
    }
}

proof fn lemma_lookup_push_same(slots: Seq<RegisterSlot>, slot: RegisterSlot)
    requires
        forall|j: int| 0 <= j < slots.len() ==> (#[trigger] slots[j]).name != slot.name,
    ensures
        reg_lookup(slots.push(slot), slot.name) == Some(values_view(slot.values@)),
{
    let u = slots.push(slot);
    assert(u[u.len() - 1] == slot);
    lemma_lookup_first_match(u, slot.name, u.len() - 1);
}

impl Registers {
    /// The view of the store: what each register name holds.
    pub open spec fn contents(self, name: char) -> Option<Seq<Seq<char>>> {
        reg_lookup(self.slots@, name)
    }

    pub fn new() -> (r: Registers)
        ensures
            r.slots@.len() == 0,
            forall|c: char| r.contents(c) is None,
    {
        Registers { slots: Vec::new() }
    }

    /// Index of the first slot named `name`.
    fn find_slot(&self, name: char) -> (r: Option<usize>)
        ensures
            match r {
                Some(i) => {
                    &&& i < self.slots@.len()
                    &&& self.slots@[i as int].name == name
                    &&& forall|j: int|
                        0 <= j < i ==> (#[trigger] self.slots@[j]).name != name
                },
                None => forall|j: int|
                    0 <= j < self.slots@.len() ==> (#[trigger] self.slots@[j]).name != name,
            },
    {
        let mut i: usize = 0;
        while i < self.slots.len()
            invariant
                i <= self.slots@.len(),
                forall|j: int| 0 <= j < i ==> (#[trigger] self.slots@[j]).name != name,
            decreases self.slots.len() - i,
        {
            if self.slots[i].name == name {
                return Some(i);
            }
            i = i + 1;
        }
        None
    }

    /// Replace the whole contents of register `name`.
    pub fn write(&mut self, name: char, values: Vec<Vec<char>>)
        ensures
            final(self).contents(name) == Some(values_view(values@)),
            forall|c: char| c != name ==> final(self).contents(c) == old(self).contents(c),
    {
        let slot = RegisterSlot { name, values };
        match self.find_slot(name) {
            Some(i) => {
                let ghost before = self.slots@;
                self.slots.set(i, slot);
                proof {
                    lemma_lookup_first_match(self.slots@, name, i as int);
                    assert forall|c: char| c != name implies reg_lookup(self.slots@, c)
                        == reg_lookup(before, c) by {
                        lemma_lookup_update(before, i as int, self.slots@[i as int], c);
                    }
                }
            },
            None => {
                let ghost before = self.slots@;
                self.slots.push(slot);
                proof {
                    lemma_lookup_push_same(before, self.slots@.last());
                    assert(self.slots@ =~= before.push(self.slots@.last()));
                    assert forall|c: char| c != name implies reg_lookup(self.slots@, c)
                        == reg_lookup(before, c) by {
                        lemma_lookup_push(before, self.slots@.last(), c);
                    }
                }
            },
        }
    }

    /// Add one value at the front of register `name`, creating it if
    /// absent.
    pub fn push(&mut self, name: char, value: Vec<char>)
        ensures
            final(self).contents(name) == Some(
                match old(self).contents(name) {
                    Some(vs) => seq![value@] + vs,
                    None => seq![value@],
                },
            ),
            forall|c: char| c != name ==> final(self).contents(c) == old(self).contents(c),
    {
        match self.find_slot(name) {
            Some(i) => {
                let ghost before = self.slots@;
                let mut values = duplicate_values(&self.slots[i].values);
                values.insert(0, value);
                let slot = RegisterSlot { name, values };
                proof {
                    lemma_lookup_first_match(before, name, i as int);
                }
                self.slots.set(i, slot);
                proof {
                    lemma_lookup_first_match(self.slots@, name, i as int);
                    assert(values_view(self.slots@[i as int].values@) =~= seq![value@]
                        + values_view(before[i as int].values@));
                    assert forall|c: char| c != name implies reg_lookup(self.slots@, c)
                        == reg_lookup(before, c) by {
                        lemma_lookup_update(before, i as int, self.slots@[i as int], c);
                    }
                }
            },
            None => {
                let ghost before = self.slots@;
                let mut values: Vec<Vec<char>> = Vec::new();
                values.push(value);
                let slot = RegisterSlot { name, values };
                self.slots.push(slot);
                proof {
                    lemma_lookup_no_match(before, name);
                    lemma_lookup_push_same(before, self.slots@.last());
                    assert(self.slots@ =~= before.push(self.slots@.last()));
                    assert(values_view(self.slots@.last().values@) =~= seq![value@]);
                    assert forall|c: char| c != name implies reg_lookup(self.slots@, c)
                        == reg_lookup(before, c) by {
                        lemma_lookup_push(before, self.slots@.last(), c);
                    }
                }
            },
        }
    }

    /// The most recent value of register `name`.
    pub fn first(&self, name: char) -> (r: Option<Vec<char>>)
        ensures
            match r {
                Some(v) => {
                    &&& self.contents(name) is Some
                    &&& self.contents(name)->0.len() > 0
                    &&& v@ == self.contents(name)->0[0]
                },
                None => self.contents(name) is None || self.contents(name)->0.len() == 0,
            },
    {
        match self.find_slot(name) {
            Some(i) => {
                proof {
                    lemma_lookup_first_match(self.slots@, name, i as int);
                }
                if self.slots[i].values.len() == 0 {
                    None
                } else {
                    let v = duplicate_chars(&self.slots[i].values[0]);
                    Some(v)
                }
            },
            None => {
                proof {
                    lemma_lookup_no_match(self.slots@, name);
                }
                None
            },
        }
    }

    /// All values of register `name`, most recent first.
    pub fn read(&self, name: char) -> (r: Option<Vec<Vec<char>>>)
        ensures
            match r {
                Some(vs) => self.contents(name) == Some(values_view(vs@)),
                None => self.contents(name) is None,
            },
    {
        match self.find_slot(name) {
            Some(i) => {
                proof {
                    lemma_lookup_first_match(self.slots@, name, i as int);
                }
                Some(duplicate_values(&self.slots[i].values))
            },
            None => {
                proof {
                    lemma_lookup_no_match(self.slots@, name);
                }
                None
            },
        }
    }
}

/// A value-equal copy of a fragment list.
pub fn duplicate_values(vs: &Vec<Vec<char>>) -> (r: Vec<Vec<char>>)
    ensures
        values_view(r@) == values_view(vs@),
        r@.len() == vs@.len(),
        forall|i: int| 0 <= i < vs@.len() ==> (#[trigger] r@[i])@ == vs@[i]@,
{
    let mut r: Vec<Vec<char>> = Vec::new();
    let mut i: usize = 0;
    while i < vs.len()
        invariant
            i <= vs@.len(),
            r@.len() == i,
            forall|j: int| 0 <= j < i ==> (#[trigger] r@[j])@ == vs@[j]@,
        decreases vs.len() - i,
    {
        r.push(duplicate_chars(&vs[i]));
        i = i + 1;
    }
    proof {
        assert(values_view(r@) =~= values_view(vs@));
    }
    r
}

/// A value-equal copy of a fragment.
pub fn duplicate_chars(v: &Vec<char>) -> (r: Vec<char>)
    ensures
        r@ == v@,
{
    let mut r: Vec<char> = Vec::new();
    let mut i: usize = 0;
    while i < v.len()
        invariant
            i <= v@.len(),
            r@ == v@.take(i as int),
        decreases v.len() - i,
    {
        r.push(v[i]);
        proof {
            assert(v@.take(i + 1int) =~= v@.take(i as int).push(v@[i as int]));
        }
        i = i + 1;
    }
    proof {
        assert(v@.take(v@.len() as int) =~= v@);
    }
    r
}

} // verus!
