//! Tables from state names to colour texts, as a configuration gives them.

use crate::text::str_eq;
use vstd::prelude::*;

verus! {

/// One line of a table: a state's name and the text of its colour.
#[derive(Debug, Clone)]
pub struct ColorEntry {
    state: String,
    color: String,
}

/// A table from state names to colour texts. No name occurs twice; the lines
/// keep the order in which their names first came.
#[derive(Debug, Clone)]
pub struct ColorTable {
    entries: Vec<ColorEntry>,
}

/// The index of the first line for `state`, if there is one.
pub open spec fn index_of(lines: Seq<(Seq<char>, Seq<char>)>, state: Seq<char>) -> Option<int>
    decreases lines.len(),
{
    if lines.len() == 0 {
        None
    } else if index_of(lines.drop_last(), state) is Some {
        index_of(lines.drop_last(), state)
    } else if lines.last().0 == state {
        Some(lines.len() - 1)
    } else {
        None
    }
}

/// The colour text that the table gives for `state`, if any.
pub open spec fn lookup(lines: Seq<(Seq<char>, Seq<char>)>, state: Seq<char>) -> Option<
    Seq<char>,
> {
    match index_of(lines, state) {
        Some(i) => Some(lines[i].1),
        None => None,
    }
}

/// The table after `state` was given `color`: the line for `state` is
/// replaced where there is one, else a line is added at the end.
pub open spec fn upsert(
    lines: Seq<(Seq<char>, Seq<char>)>,
    state: Seq<char>,
    color: Seq<char>,
) -> Seq<(Seq<char>, Seq<char>)> {
    match index_of(lines, state) {
        Some(i) => lines.update(i, (state, color)),
        None => lines.push((state, color)),
    }
}

/// No state name occurs in two lines.
pub open spec fn distinct_states(lines: Seq<(Seq<char>, Seq<char>)>) -> bool {
    forall|i: int, j: int|
        0 <= i < j < lines.len() ==> (#[trigger] lines[i]).0 != (#[trigger] lines[j]).0
}

/// What `index_of` finds is the first line for the state; where it finds
/// nothing, no line is for it.
pub proof fn lemma_index_of(lines: Seq<(Seq<char>, Seq<char>)>, state: Seq<char>)
    ensures
        match index_of(lines, state) {
            Some(i) => {
                &&& 0 <= i < lines.len()
                &&& lines[i].0 == state
                &&& forall|j: int| 0 <= j < i ==> (#[trigger] lines[j]).0 != state
            },
            None => forall|j: int| 0 <= j < lines.len() ==> (#[trigger] lines[j]).0 != state,
        },
    decreases lines.len(),
{
    if lines.len() > 0 {
        lemma_index_of(lines.drop_last(), state);
        assert forall|j: int| 0 <= j < lines.len() - 1 implies lines.drop_last()[j]
            == lines[j] by {}
    }
}

/// A line for the state with none before it is the one that `index_of` finds.
pub proof fn lemma_index_of_first(lines: Seq<(Seq<char>, Seq<char>)>, state: Seq<char>, i: int)
    requires
        0 <= i < lines.len(),
        lines[i].0 == state,
        forall|j: int| 0 <= j < i ==> (#[trigger] lines[j]).0 != state,
    ensures
        index_of(lines, state) == Some(i),
{
    lemma_index_of(lines, state);
}

/// A state that has no line yet gets one at the end.
pub proof fn lemma_upsert_new(lines: Seq<(Seq<char>, Seq<char>)>, state: Seq<char>, color: Seq<char>)
    requires
        forall|j: int| 0 <= j < lines.len() ==> (#[trigger] lines[j]).0 != state,
    ensures
        upsert(lines, state, color) == lines.push((state, color)),
{
    lemma_index_of(lines, state);
}

/// After a state was given a colour, the table gives that colour for it, and
/// for every other state what it gave before.
pub proof fn lemma_upsert_lookup(
    lines: Seq<(Seq<char>, Seq<char>)>,
    state: Seq<char>,
    color: Seq<char>,
    other: Seq<char>,
)
    ensures
        lookup(upsert(lines, state, color), state) == Some(color),
        other != state ==> lookup(upsert(lines, state, color), other) == lookup(lines, other),
        distinct_states(lines) ==> distinct_states(upsert(lines, state, color)),
{
    let after = upsert(lines, state, color);
    lemma_index_of(lines, state);
    lemma_index_of(lines, other);
    lemma_index_of(after, state);
    lemma_index_of(after, other);
    match index_of(lines, state) {
        Some(i) => {
            assert(after[i].0 == state);
            assert forall|j: int| 0 <= j < after.len() implies (#[trigger] after[j]).0
                == lines[j].0 by {}
        },
        None => {
            assert(after[lines.len() as int].0 == state);
            assert forall|j: int| 0 <= j < lines.len() implies #[trigger] after[j]
                == lines[j] by {}
        },
    }
    if other != state {
        match index_of(lines, other) {
            Some(k) => {
                assert(after[k] == lines[k]);
                assert(after[k].0 == other);
            },
            None => {},
        }
        match index_of(after, other) {
            Some(k) => {
                assert(after[k].0 == other);
                assert(k < lines.len());
                assert(lines[k].0 == other);
            },
            None => {},
        }
    }
}

impl View for ColorTable {
    type V = Seq<(Seq<char>, Seq<char>)>;

    closed spec fn view(&self) -> Seq<(Seq<char>, Seq<char>)> {
        Seq::new(self.entries@.len(), |i: int| (self.entries@[i].state@, self.entries@[i].color@))
    }
}

impl ColorTable {
    /// No state name occurs twice.
    pub open spec fn wf(&self) -> bool {
        distinct_states(self@)
    }

    /// The empty table.
    pub fn new() -> (t: ColorTable)
        ensures
            t@ == Seq::<(Seq<char>, Seq<char>)>::empty(),
            t.wf(),
    {
        let t = ColorTable { entries: Vec::new() };
        assert(t@ =~= Seq::<(Seq<char>, Seq<char>)>::empty());
        t
    }

    /// How many lines the table has.
    pub fn len(&self) -> (n: usize)
        ensures
            n == self@.len(),
    {
        self.entries.len()
    }

    /// The state name of line `i`.
    pub fn state_at(&self, i: usize) -> (s: &str)
        requires
            i < self@.len(),
        ensures
            s@ == self@[i as int].0,
    {
        self.entries[i].state.as_str()
    }

    /// The colour text of line `i`.
    pub fn color_at(&self, i: usize) -> (s: &str)
        requires
            i < self@.len(),
        ensures
            s@ == self@[i as int].1,
    {
        self.entries[i].color.as_str()
    }

    /// The index of the line for `state`, if there is one.
    fn find(&self, state: &str) -> (r: Option<usize>)
        ensures
            match r {
                Some(i) => index_of(self@, state@) == Some(i as int) && i < self@.len(),
                None => index_of(self@, state@) is None,
            },
    {
        let mut i: usize = 0;
        while i < self.entries.len()
            invariant
                i <= self.entries.len(),
                forall|j: int| 0 <= j < i ==> (#[trigger] self@[j]).0 != state@,
            decreases self.entries.len() - i,
        {
            if str_eq(self.entries[i].state.as_str(), state) {
                proof {
                    lemma_index_of_first(self@, state@, i as int);
                }
                return Some(i);
            }
            i += 1;
        }
        proof {
            lemma_index_of(self@, state@);
        }
        None
    }

    /// Gives `state` the colour text `color`, in place of the one it had if it
    /// had one.
    pub fn insert(&mut self, state: String, color: String)
        requires
            old(self).wf(),
        ensures
            final(self)@ == upsert(old(self)@, state@, color@),
            final(self).wf(),
    {
        let ghost before = self@;
        proof {
            lemma_upsert_lookup(before, state@, color@, state@);
        }
        match self.find(state.as_str()) {
            Some(i) => {
                self.entries.set(i, ColorEntry { state, color });
                assert(self@ =~= before.update(i as int, (state@, color@)));
            },
            None => {
                self.entries.push(ColorEntry { state, color });
                assert(self@ =~= before.push((state@, color@)));
            },
        }
    }

    /// The colour text that the table gives for `state`, if any.
    pub fn get(&self, state: &str) -> (r: Option<&str>)
        ensures
            match r {
                Some(text) => lookup(self@, state@) == Some(text@),
                None => lookup(self@, state@) is None,
            },
    {
        match self.find(state) {
            Some(i) => Some(self.entries[i].color.as_str()),
            None => None,
        }
    }

    /// Whether the table has a line for `state`.
    pub fn contains_key(&self, state: &str) -> (b: bool)
        ensures
            b == lookup(self@, state@).is_some(),
    {
        self.find(state).is_some()
    }
}

} // verus!
