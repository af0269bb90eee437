//! The outcome of a detection run: for each sheet with missing entries, the
//! entries in the order of its rows.

use crate::text::{
    lemma_lex_asymmetric, lemma_lex_irreflexive, lemma_lex_total, lemma_lex_transitive, lex_less,
    str_equal, str_less, texts,
};
use vstd::prelude::*;

verus! {

/// A sheet's name and its missing entries, as mathematical values.
pub struct Section {
    pub name: Seq<char>,
    pub entries: Seq<Seq<char>>,
}

/// Whether the sections stand in strictly rising order of their names.
pub open spec fn rising(s: Seq<Section>) -> bool {
    forall|i: int, j: int| 0 <= i < j < s.len() ==> lex_less(#[trigger] s[i].name, #[trigger] s[j].name)
}

/// Where the sheet `name` stands among the sections, if it does.
pub open spec fn has_name_at(s: Seq<Section>, name: Seq<char>, i: int) -> bool {
    0 <= i < s.len() && s[i].name == name
}

/// The mapping from sheet names to entries that the sections make up.
pub open spec fn section_map(s: Seq<Section>) -> Map<Seq<char>, Seq<Seq<char>>> {
    Map::new(
        |k: Seq<char>| exists|i: int| has_name_at(s, k, i),
        |k: Seq<char>| s[choose|i: int| has_name_at(s, k, i)].entries,
    )
}

/// The number of entries in all the sections together.
pub open spec fn total_entries(s: Seq<Section>) -> nat
    decreases s.len(),
{
    if s.len() == 0 {
        0
    } else {
        total_entries(s.drop_last()) + s.last().entries.len()
    }
}

/// In rising sections no name stands twice.
pub proof fn lemma_rising_distinct(s: Seq<Section>, i: int, j: int)
    requires
        rising(s),
        0 <= i < s.len(),
        0 <= j < s.len(),
        s[i].name == s[j].name,
    ensures
        i == j,
{
    if i < j {
        lemma_lex_irreflexive(s[i].name, 0);
    } else if j < i {
        lemma_lex_irreflexive(s[j].name, 0);
    }
}

/// The mapping of rising sections holds each section under its name.
pub proof fn lemma_section_map_holds(s: Seq<Section>, i: int)
    requires
        rising(s),
        0 <= i < s.len(),
    ensures
        section_map(s).dom().contains(s[i].name),
        section_map(s)[s[i].name] == s[i].entries,
{
    assert(has_name_at(s, s[i].name, i));
    let j = choose|j: int| has_name_at(s, s[i].name, j);
    lemma_rising_distinct(s, i, j);
}

/// Rising sections are determined by their mapping.
pub proof fn lemma_rising_unique(a: Seq<Section>, b: Seq<Section>)
    requires
        rising(a),
        rising(b),
        section_map(a) == section_map(b),
    ensures
        a == b,
    decreases a.len(),
{
    if a.len() == 0 {
        if b.len() > 0 {
            lemma_section_map_holds(b, 0);
            let i = choose|i: int| has_name_at(a, b[0].name, i);
            assert(has_name_at(a, b[0].name, i));
        }
        assert(a =~= b);
    } else {
        lemma_section_map_holds(a, 0);
        let j = choose|j: int| has_name_at(b, a[0].name, j);
        assert(has_name_at(b, a[0].name, j));
        lemma_section_map_holds(b, 0);
        let i = choose|i: int| has_name_at(a, b[0].name, i);
        assert(has_name_at(a, b[0].name, i));
        if j != 0 {
            // b[0] < b[j] == a[0] <= a[i] == b[0]
            assert(lex_less(b[0].name, b[j].name));
            if i != 0 {
                assert(lex_less(a[0].name, a[i].name));
                lemma_lex_asymmetric(b[0].name, a[0].name, 0);
            } else {
                lemma_lex_irreflexive(a[0].name, 0);
            }
        }
        assert(a[0].name == b[0].name);
        lemma_section_map_holds(b, 0);
        assert(a[0].entries == b[0].entries);
        let ta = a.drop_first();
        let tb = b.drop_first();
        assert(rising(ta)) by {
            assert forall|x: int, y: int| 0 <= x < y < ta.len() implies lex_less(
                #[trigger] ta[x].name,
                #[trigger] ta[y].name,
            ) by {
                assert(lex_less(a[x + 1].name, a[y + 1].name));
            }
        }
        assert(rising(tb)) by {
            assert forall|x: int, y: int| 0 <= x < y < tb.len() implies lex_less(
                #[trigger] tb[x].name,
                #[trigger] tb[y].name,
            ) by {
                assert(lex_less(b[x + 1].name, b[y + 1].name));
            }
        }
        lemma_tail_map(a);
        lemma_tail_map(b);
        lemma_rising_unique(ta, tb);
        assert(a =~= seq![a[0]] + ta);
        assert(b =~= seq![b[0]] + tb);
    }
}

/// The mapping of the sections after the first is the whole mapping without
/// the first name.
proof fn lemma_tail_map(s: Seq<Section>)
    requires
        rising(s),
        s.len() > 0,
    ensures
        section_map(s.drop_first()) == section_map(s).remove(s[0].name),
{
    let t = s.drop_first();
    let m = section_map(s).remove(s[0].name);
    assert forall|k: Seq<char>| section_map(t).dom().contains(k) <==> m.dom().contains(k) by {
        if section_map(t).dom().contains(k) {
            let i = choose|i: int| has_name_at(t, k, i);
            assert(has_name_at(s, k, i + 1));
            lemma_rising_distinct(s, i + 1, i + 1);
            if k == s[0].name {
                lemma_rising_distinct(s, 0, i + 1);
            }
        }
        if m.dom().contains(k) {
            let i = choose|i: int| has_name_at(s, k, i);
            assert(i != 0);
            assert(has_name_at(t, k, i - 1));
        }
    }
    assert forall|k: Seq<char>| section_map(t).dom().contains(k) implies section_map(t)[k]
        == m[k] by {
        let i = choose|i: int| has_name_at(t, k, i);
        assert(has_name_at(t, k, i));
        assert(t[i] == s[i + 1]);
        assert(has_name_at(s, k, i + 1));
        let j = choose|j: int| has_name_at(s, k, j);
        lemma_rising_distinct(s, i + 1, j);
        assert(m.dom().contains(k));
        assert(section_map(t)[k] == t[i].entries);
        assert(m[k] == s[j].entries);
    }
    assert(section_map(t) =~= m);
}

/// The mapping after a section was put at `at`, in place of the section of
/// the same name or between its neighbours.
proof fn lemma_map_after_put(before: Seq<Section>, after: Seq<Section>, added: Section, at: int)
    requires
        rising(before),
        rising(after),
        0 <= at <= before.len(),
        after == before.insert(at, added) || (at < before.len() && before[at].name == added.name
            && after == before.update(at, added)),
    ensures
        section_map(after) == section_map(before).insert(added.name, added.entries),
{
    let replaced = at < before.len() && before[at].name == added.name && after == before.update(
        at,
        added,
    );
    let want = section_map(before).insert(added.name, added.entries);
    assert(after[at] == added);
    assert forall|k: Seq<char>| section_map(after).dom().contains(k) <==> want.dom().contains(
        k,
    ) by {
        if section_map(after).dom().contains(k) {
            let j = choose|j: int| has_name_at(after, k, j);
            assert(has_name_at(after, k, j));
            if j != at {
                if replaced {
                    assert(has_name_at(before, k, j));
                } else if j < at {
                    assert(has_name_at(before, k, j));
                } else {
                    assert(has_name_at(before, k, j - 1));
                }
            }
        }
        if want.dom().contains(k) {
            if k == added.name {
                assert(has_name_at(after, k, at));
            } else {
                let j = choose|j: int| has_name_at(before, k, j);
                assert(has_name_at(before, k, j));
                if replaced {
                    assert(has_name_at(after, k, j));
                } else if j < at {
                    assert(has_name_at(after, k, j));
                } else {
                    assert(has_name_at(after, k, j + 1));
                }
            }
        }
    }
    assert forall|k: Seq<char>| section_map(after).dom().contains(k) implies section_map(
        after,
    )[k] == want[k] by {
        let j = choose|j: int| has_name_at(after, k, j);
        assert(has_name_at(after, k, j));
        if j == at {
        } else {
            lemma_rising_distinct(after, j, j);
            if k == added.name {
                lemma_rising_distinct(after, j, at);
            }
            if replaced {
                lemma_section_map_holds(before, j);
            } else if j < at {
                lemma_section_map_holds(before, j);
            } else {
                lemma_section_map_holds(before, j - 1);
            }
        }
    }
    assert(section_map(after) =~= want);
}

/// A sheet's name and its missing entries.
#[derive(Debug, PartialEq, Eq)]
pub struct SheetMissing {
    pub name: String,
    pub entries: Vec<String>,
}

impl View for SheetMissing {
    type V = Section;

    open spec fn view(&self) -> Section {
        Section { name: self.name@, entries: texts(self.entries@) }
    }
}

/// The missing entries of a run, sheet by sheet. A sheet stands in it only
/// with at least one entry, and the sheets stand in the order of their names.
#[derive(Debug, PartialEq, Eq)]
pub struct NotificationList {
    sections: Vec<SheetMissing>,
}

impl View for NotificationList {
    type V = Map<Seq<char>, Seq<Seq<char>>>;

    open spec fn view(&self) -> Map<Seq<char>, Seq<Seq<char>>> {
        section_map(self.sections())
    }
}

impl NotificationList {
    /// The sheets with their entries, in the order in which they are held.
    pub closed spec fn sections(&self) -> Seq<Section> {
        Seq::new(self.sections@.len(), |i: int| self.sections@[i]@)
    }

    /// Whether the list is well formed: names rise strictly and no sheet is
    /// without an entry.
    pub open spec fn wf(&self) -> bool {
        &&& rising(self.sections())
        &&& forall|i: int| 0 <= i < self.sections().len() ==> (#[trigger] self.sections()[i]).entries.len() > 0
    }

    /// The list without any sheet.
    pub fn new() -> (r: NotificationList)
        ensures
            r.wf(),
            r.sections() == Seq::<Section>::empty(),
            r@ == Map::<Seq<char>, Seq<Seq<char>>>::empty(),
    {
        let r = NotificationList { sections: Vec::new() };
        assert(r.sections() =~= Seq::<Section>::empty());
        assert(r@ =~= Map::<Seq<char>, Seq<Seq<char>>>::empty());
        r
    }

    /// The number of sheets with missing entries.
    pub fn len(&self) -> (n: usize)
        ensures
            n == self.sections().len(),
    {
        self.sections.len()
    }

    /// Whether no sheet has a missing entry.
    pub fn is_empty(&self) -> (r: bool)
        ensures
            r == (self.sections().len() == 0),
    {
        self.sections.len() == 0
    }

    /// The name of the sheet at `i`.
    pub fn name_at(&self, i: usize) -> (name: &String)
        requires
            i < self.sections().len(),
        ensures
            name@ == self.sections()[i as int].name,
    {
        &self.sections[i].name
    }

    /// The entries of the sheet at `i`.
    pub fn entries_at(&self, i: usize) -> (entries: &Vec<String>)
        requires
            i < self.sections().len(),
        ensures
            texts(entries@) == self.sections()[i as int].entries,
    {
        &self.sections[i].entries
    }

    /// The entries of the sheet `name`, where it has missing entries.
    pub fn get(&self, name: &str) -> (r: Option<&Vec<String>>)
        requires
            self.wf(),
        ensures
            match r {
                Some(entries) => self@.dom().contains(name@) && self@[name@] == texts(entries@),
                None => !self@.dom().contains(name@),
            },
    {
        let mut i: usize = 0;
        while i < self.sections.len()
            invariant
                self.wf(),
                i <= self.sections@.len(),
                forall|j: int| 0 <= j < i ==> self.sections()[j].name != name@,
            decreases self.sections@.len() - i,
        {
            if str_equal(self.sections[i].name.as_str(), name) {
                proof {
                    lemma_section_map_holds(self.sections(), i as int);
                }
                return Some(&self.sections[i].entries);
            }
            i += 1;
        }
        proof {
            if self@.dom().contains(name@) {
                let j = choose|j: int| has_name_at(self.sections(), name@, j);
                assert(has_name_at(self.sections(), name@, j));
            }
        }
        None
    }

    /// Puts the sheet `name` with its entries into the list, in place of what
    /// the list held under that name.
    pub fn insert(&mut self, name: String, entries: Vec<String>)
        requires
            old(self).wf(),
            entries@.len() > 0,
        ensures
            final(self).wf(),
            final(self)@ == old(self)@.insert(name@, texts(entries@)),
    {
        let ghost before = self.sections();
        let ghost added = Section { name: name@, entries: texts(entries@) };
        let mut i: usize = 0;
        while i < self.sections.len() && str_less(self.sections[i].name.as_str(), name.as_str())
            invariant
                self.sections() == before,
                i <= self.sections@.len(),
                forall|j: int| 0 <= j < i ==> lex_less(#[trigger] before[j].name, name@),
            decreases self.sections@.len() - i,
        {
            i += 1;
        }
        if i < self.sections.len() && str_equal(self.sections[i].name.as_str(), name.as_str()) {
            self.sections.set(i, SheetMissing { name, entries });
            proof {
                let after = self.sections();
                assert(after =~= before.update(i as int, added));
                assert(rising(after)) by {
                    assert forall|x: int, y: int| 0 <= x < y < after.len() implies lex_less(
                        #[trigger] after[x].name,
                        #[trigger] after[y].name,
                    ) by {
                        assert(lex_less(before[x].name, before[y].name));
                    }
                }
                lemma_map_after_put(before, after, added, i as int);
            }
        } else {
            proof {
                if i < before.len() {
                    if !lex_less(name@, before[i as int].name) {
                        lemma_lex_total(before[i as int].name, name@, 0);
                    }
                    assert forall|j: int| i <= j < before.len() implies lex_less(
                        name@,
                        #[trigger] before[j].name,
                    ) by {
                        if j > i {
                            assert(lex_less(before[i as int].name, before[j].name));
                            lemma_lex_transitive(name@, before[i as int].name, before[j].name, 0);
                        }
                    }
                }
            }
            self.sections.insert(i, SheetMissing { name, entries });
            proof {
                let after = self.sections();
                assert(after =~= before.insert(i as int, added));
                assert(rising(after)) by {
                    assert forall|x: int, y: int| 0 <= x < y < after.len() implies lex_less(
                        #[trigger] after[x].name,
                        #[trigger] after[y].name,
                    ) by {
                        if y < i {
                            assert(lex_less(before[x].name, before[y].name));
                        } else if y == i {
                            assert(lex_less(before[x].name, name@));
                        } else if x < i {
                            assert(lex_less(before[x].name, name@));
                            assert(lex_less(name@, before[y - 1].name));
                            lemma_lex_transitive(before[x].name, name@, before[y - 1].name, 0);
                        } else if x == i {
                            assert(lex_less(name@, before[y - 1].name));
                        } else {
                            assert(lex_less(before[x - 1].name, before[y - 1].name));
                        }
                    }
                }
                lemma_map_after_put(before, after, added, i as int);
            }
        }
    }

    /// The number of missing entries over all sheets.
    pub fn total_missing(&self) -> (n: u128)
        ensures
            n == total_entries(self.sections()),
    {
        let mut n: u128 = 0;
        let mut i: usize = 0;
        while i < self.sections.len()
            invariant
                i <= self.sections@.len(),
                n == total_entries(self.sections().take(i as int)),
                n <= i * usize::MAX,
            decreases self.sections@.len() - i,
        {
            assert(self.sections().take(i as int + 1).drop_last() == self.sections().take(
                i as int,
            ));
            n = n + self.sections[i].entries.len() as u128;
            i += 1;
        }
        assert(self.sections().take(i as int) == self.sections());
        n
    }
}

} // verus!
