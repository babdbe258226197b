//! Sets of column names, as a command line hands them over.

use crate::text::same_text;
use vstd::prelude::*;
use vstd::string::{StrSliceExecFns, StringExecFns};

verus! {

/// The character sequences of a sequence of strings.
pub open spec fn name_views(names: Seq<String>) -> Seq<Seq<char>> {
    names.map_values(|s: String| s@)
}

/// True when a set holds one of the two wildcard tokens, which stand for every column.
pub open spec fn holds_wildcard(names: Set<Seq<char>>) -> bool {
    names.contains("*"@) || names.contains("__all__"@)
}

/// A set of column names. No name is held twice.
#[derive(Debug)]
pub struct ColumnSet {
    names: Vec<String>,
}

impl View for ColumnSet {
    type V = Set<Seq<char>>;

    open spec fn view(&self) -> Set<Seq<char>> {
        self.names().to_set()
    }
}

impl Clone for ColumnSet {
    fn clone(&self) -> (copy: ColumnSet)
        ensures
            copy.names() == self.names(),
            copy@ == self@,
    {
        proof {
            use_type_invariant(self);
        }
        let mut names: Vec<String> = Vec::new();
        let mut i: usize = 0;
        while i < self.names.len()
            invariant
                i <= self.names@.len(),
                name_views(names@) == name_views(self.names@).take(i as int),
            decreases self.names@.len() - i,
        {
            let name = self.names[i].clone();
            proof {
                lemma_push_name(names@, name);
                assert(name_views(self.names@).take(i + 1) =~= name_views(self.names@).take(
                    i as int,
                ).push(name@));
            }
            names.push(name);
            i = i + 1;
        }
        ColumnSet { names }
    }
}

impl ColumnSet {
    #[verifier::type_invariant]
    spec fn distinct(self) -> bool {
        name_views(self.names@).no_duplicates()
    }

    /// The names in the order in which they came in.
    pub closed spec fn names(&self) -> Seq<Seq<char>> {
        name_views(self.names@)
    }

    /// The empty set.
    pub fn new() -> (set: ColumnSet)
        ensures
            set.names() == Seq::<Seq<char>>::empty(),
            set@ == Set::<Seq<char>>::empty(),
    {
        let set = ColumnSet { names: Vec::new() };
        set
    }

    /// The number of names in the set.
    pub fn len(&self) -> (n: usize)
        ensures
            n == self.names().len(),
            n == self@.len(),
            self.names().no_duplicates(),
    {
        proof {
            use_type_invariant(self);
            self.names().unique_seq_to_set();
        }
        self.names.len()
    }

    /// Tells whether the set holds no name.
    pub fn is_empty(&self) -> (empty: bool)
        ensures
            empty == (self@ == Set::<Seq<char>>::empty()),
            empty == (self.names().len() == 0),
    {
        proof {
            if self.names().len() == 0 {
                assert(self@ =~= Set::<Seq<char>>::empty());
            } else {
                assert(self@.contains(self.names()[0]));
            }
        }
        self.names.len() == 0
    }

    /// The name at position `index` in order of arrival, if there is one.
    pub fn get(&self, index: usize) -> (name: Option<&String>)
        ensures
            index < self.names().len() ==> name.is_some() && name.unwrap()@ == self.names()[
                index as int],
            index >= self.names().len() ==> name.is_none(),
    {
        if index < self.names.len() {
            Some(&self.names[index])
        } else {
            None
        }
    }

    /// Tells whether the set holds `name`.
    pub fn contains(&self, name: &str) -> (found: bool)
        ensures
            found == self@.contains(name@),
    {
        let mut i: usize = 0;
        while i < self.names.len()
            invariant
                i <= self.names@.len(),
                forall|k: int| 0 <= k < i ==> self.names()[k] != name@,
            decreases self.names@.len() - i,
        {
            if same_text(self.names[i].as_str(), name) {
                assert(self.names()[i as int] == name@);
                return true;
            }
            i = i + 1;
        }
        false
    }

    /// Tells whether the set holds one of the two wildcard tokens.
    pub fn has_wildcard(&self) -> (found: bool)
        ensures
            found == holds_wildcard(self@),
    {
        self.contains("*") || self.contains("__all__")
    }

    /// Puts `name` into the set. Returns whether it was new.
    pub fn insert(&mut self, name: String) -> (added: bool)
        ensures
            added == !old(self)@.contains(name@),
            final(self)@ == old(self)@.insert(name@),
            added ==> final(self).names() == old(self).names().push(name@),
            !added ==> final(self).names() == old(self).names(),
    {
        if self.contains(name.as_str()) {
            false
        } else {
            proof {
                use_type_invariant(&*self);
            }
            let ghost before = self.names@;
            let mut names: Vec<String> = Vec::new();
            core::mem::swap(&mut names, &mut self.names);
            names.push(name);
            proof {
                lemma_push_name(before, name);
            }
            self.names = names;
            true
        }
    }
}

/// Pushing a string pushes its characters onto the views, and adds them to the set of views.
proof fn lemma_push_name(names: Seq<String>, name: String)
    ensures
        name_views(names.push(name)) == name_views(names).push(name@),
        name_views(names.push(name)).to_set() == name_views(names).to_set().insert(name@),
        name_views(names).no_duplicates() && !name_views(names).to_set().contains(name@)
            ==> name_views(names.push(name)).no_duplicates(),
{
    let before = name_views(names);
    let grown = name_views(names.push(name));
    assert(grown =~= before.push(name@));
    assert forall|x: Seq<char>| grown.to_set().contains(x) implies before.to_set().insert(
        name@,
    ).contains(x) by {
        let k = choose|k: int| 0 <= k < grown.len() && grown[k] == x;
        assert(k < before.len() ==> before[k] == x);
    }
    assert forall|x: Seq<char>| before.to_set().insert(name@).contains(x) implies grown.to_set().contains(
        x,
    ) by {
        if x == name@ {
            assert(grown[before.len() as int] == x);
        } else {
            let k = choose|k: int| 0 <= k < before.len() && before[k] == x;
            assert(grown[k] == x);
        }
    }
    if before.no_duplicates() && !before.to_set().contains(name@) {
        assert forall|i: int, j: int|
            0 <= i < grown.len() && 0 <= j < grown.len() && i != j implies grown[i] != grown[j] by {
            assert(i < before.len() ==> before.to_set().contains(before[i]));
            assert(j < before.len() ==> before.to_set().contains(before[j]));
        }
    }
}

/// True when `from..to` is a stretch of `text` between two commas, or between a comma and an
/// end of the text, that holds no comma itself.
pub open spec fn is_segment(text: Seq<char>, from: int, to: int) -> bool {
    &&& 0 <= from <= to <= text.len()
    &&& (from == 0 || text[from - 1] == ',')
    &&& (to == text.len() || text[to] == ',')
    &&& forall|k: int| from <= k < to ==> text[k] != ','
}

/// The names in a comma separated list. The empty text holds none.
pub open spec fn comma_separated(text: Seq<char>) -> Set<Seq<char>> {
    if text.len() == 0 {
        Set::empty()
    } else {
        Set::new(
            |name: Seq<char>|
                exists|from: int, to: int| #[trigger]
                    is_segment(text, from, to) && name == text.subrange(from, to),
        )
    }
}

/// The segments of `text` that end before position `limit`.
pub open spec fn segments_before(text: Seq<char>, limit: int) -> Set<Seq<char>> {
    Set::new(
        |name: Seq<char>|
            exists|from: int, to: int| #[trigger]
                is_segment(text, from, to) && to < limit && name == text.subrange(from, to),
    )
}

/// Reads a comma separated list of column names, as an argument parser hands it over.
///
/// The empty argument gives the empty set. Any other argument gives the set of its
/// segments between commas, the empty segment among them where two commas meet or where the
/// argument begins or ends with a comma. Every argument is accepted.
pub fn clap_comma_separated(arg: &str) -> (parsed: Result<ColumnSet, String>)
    ensures
        parsed matches Ok(set) && set@ == comma_separated(arg@),
{
    broadcast use vstd::string::group_string_axioms;

    let mut set = ColumnSet::new();
    let n = arg.unicode_len();
    if n == 0 {
        return Ok(set);
    }
    let mut start: usize = 0;
    let mut i: usize = 0;
    for c in it: arg.chars()
        invariant
            it.seq() == arg@,
            n == arg@.len(),
            i == it.index(),
            i <= n,
            start <= i,
            start == 0 || arg@[start - 1] == ',',
            forall|k: int| start <= k < i ==> arg@[k] != ',',
            set@ == segments_before(arg@, start as int),
    {
        if c == ',' {
            let name = arg.substring_char(start, i);
            set.insert(String::from_str(name));
            proof {
                lemma_segment_closed(arg@, start as int, i as int);
            }
            start = i + 1;
        }
        i = i + 1;
    }
    let name = arg.substring_char(start, n);
    set.insert(String::from_str(name));
    proof {
        lemma_last_segment(arg@, start as int);
    }
    Ok(set)
}

/// A comma at `to` closes the segment that began at `from`: it is the one segment that ends
/// in `from..=to`.
proof fn lemma_segment_closed(text: Seq<char>, from: int, to: int)
    requires
        0 <= from <= to < text.len(),
        from == 0 || text[from - 1] == ',',
        text[to] == ',',
        forall|k: int| from <= k < to ==> text[k] != ',',
    ensures
        segments_before(text, to + 1) == segments_before(text, from).insert(
            text.subrange(from, to),
        ),
{
    let grown = segments_before(text, to + 1);
    let with = segments_before(text, from).insert(text.subrange(from, to));
    assert forall|name: Seq<char>| grown.contains(name) implies with.contains(name) by {
        let (a, b) = choose|a: int, b: int| #[trigger]
            is_segment(text, a, b) && b < to + 1 && name == text.subrange(a, b);
        assert(b >= from ==> b == to && a == from);
    }
    assert forall|name: Seq<char>| with.contains(name) implies grown.contains(name) by {
        if name == text.subrange(from, to) {
            assert(is_segment(text, from, to));
        } else {
            let (a, b) = choose|a: int, b: int| #[trigger]
                is_segment(text, a, b) && b < from && name == text.subrange(a, b);
            assert(is_segment(text, a, b) && b < to + 1);
        }
    }
}

/// The stretch from the last comma to the end of the text is the last segment.
proof fn lemma_last_segment(text: Seq<char>, from: int)
    requires
        0 <= from <= text.len(),
        text.len() > 0,
        from == 0 || text[from - 1] == ',',
        forall|k: int| from <= k < text.len() ==> text[k] != ',',
    ensures
        comma_separated(text) == segments_before(text, from).insert(
            text.subrange(from, text.len() as int),
        ),
{
    let all = comma_separated(text);
    let end = text.len() as int;
    let with = segments_before(text, from).insert(text.subrange(from, end));
    assert forall|name: Seq<char>| all.contains(name) implies with.contains(name) by {
        let (a, b) = choose|a: int, b: int| #[trigger]
            is_segment(text, a, b) && name == text.subrange(a, b);
        assert(b >= from ==> b == end && a == from);
    }
    assert forall|name: Seq<char>| with.contains(name) implies all.contains(name) by {
        if name == text.subrange(from, end) {
            assert(is_segment(text, from, end));
        } else {
            let (a, b) = choose|a: int, b: int| #[trigger]
                is_segment(text, a, b) && b < from && name == text.subrange(a, b);
            assert(is_segment(text, a, b));
        }
    }
}

} // verus!
