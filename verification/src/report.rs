//! The report of a detection run as text: one section for each sheet, in the
//! order of the sheets' names.

use crate::missing::{lemma_rising_unique, NotificationList, Section};
use crate::text::{lemma_lex_asymmetric, lemma_lex_irreflexive, lex_less, texts};
use vstd::prelude::*;
use vstd::string::StringExecFns;

verus! {

/// The sentence of a report without missing entries.
pub open spec fn no_missing_sentence() -> Seq<char> {
    "누락된 알림 처리 항목이 없습니다."@
}

/// The entries, each on a line of its own.
pub open spec fn entry_lines(entries: Seq<Seq<char>>) -> Seq<char>
    decreases entries.len(),
{
    if entries.len() == 0 {
        Seq::empty()
    } else {
        entry_lines(entries.drop_last()) + entries.last() + seq!['\n']
    }
}

/// A sheet's section: its name in square brackets, its entries, and an empty
/// line.
pub open spec fn section_text(s: Section) -> Seq<char> {
    seq!['['] + s.name + seq![']', '\n'] + entry_lines(s.entries) + seq!['\n']
}

/// The sections one after the other.
pub open spec fn sections_text(s: Seq<Section>) -> Seq<char>
    decreases s.len(),
{
    if s.len() == 0 {
        Seq::empty()
    } else {
        sections_text(s.drop_last()) + section_text(s.last())
    }
}

/// The whole report: the fixed sentence on a line where nothing is missing,
/// the sections otherwise.
pub open spec fn report_text(s: Seq<Section>) -> Seq<char> {
    if s.len() == 0 {
        no_missing_sentence() + seq!['\n']
    } else {
        sections_text(s)
    }
}

/// Where the section at `i` starts in the text of the sections.
pub open spec fn section_start(s: Seq<Section>, i: int) -> int {
    sections_text(s.take(i)).len() as int
}

/// The sentence of a report without missing entries.
pub fn no_missing_line() -> (s: &'static str)
    ensures
        s@ == no_missing_sentence(),
{
    "누락된 알림 처리 항목이 없습니다."
}

/// Appends the entries, each on a line of its own.
pub fn push_entry_lines(out: &mut String, entries: &Vec<String>)
    ensures
        final(out)@ == old(out)@ + entry_lines(texts(entries@)),
{
    let ghost start = out@;
    let mut i: usize = 0;
    assert(texts(entries@).take(0) =~= Seq::<Seq<char>>::empty());
    assert(out@ =~= start + entry_lines(texts(entries@).take(0)));
    while i < entries.len()
        invariant
            i <= entries.len(),
            out@ == start + entry_lines(texts(entries@).take(i as int)),
        decreases entries.len() - i,
    {
        assert(texts(entries@).take(i as int + 1).drop_last() =~= texts(entries@).take(i as int));
        assert(texts(entries@).take(i as int + 1).last() == entries@[i as int]@);
        let ghost held = out@;
        out.append(entries[i].as_str());
        out.push('\n');
        assert(out@ =~= held + entries@[i as int]@ + seq!['\n']);
        assert(out@ =~= start + entry_lines(texts(entries@).take(i as int + 1)));
        i += 1;
    }
    assert(texts(entries@).take(i as int) =~= texts(entries@));
}

/// Writes the report of `missing_data` into `artifact`, in place of whatever
/// the artifact held.
pub fn write_missing_report(artifact: &mut String, missing_data: &NotificationList)
    ensures
        final(artifact)@ == report_text(missing_data.sections()),
        missing_data.sections().len() == 0 ==> final(artifact)@ == no_missing_sentence() + seq![
            '\n',
        ],
{
    let mut out = String::new();
    if missing_data.is_empty() {
        out.append(no_missing_line());
        out.push('\n');
        assert(out@ =~= no_missing_sentence() + seq!['\n']);
    } else {
        let ghost all = missing_data.sections();
        let mut i: usize = 0;
        assert(all.take(0) =~= Seq::<Section>::empty());
        while i < missing_data.len()
            invariant
                all == missing_data.sections(),
                i <= all.len(),
                out@ == sections_text(all.take(i as int)),
            decreases all.len() - i,
        {
            assert(all.take(i as int + 1).drop_last() =~= all.take(i as int));
            assert(all.take(i as int + 1).last() == all[i as int]);
            let ghost held = out@;
            out.push('[');
            out.append(missing_data.name_at(i).as_str());
            out.push(']');
            out.push('\n');
            push_entry_lines(&mut out, missing_data.entries_at(i));
            out.push('\n');
            assert(out@ =~= held + section_text(all[i as int]));
            i += 1;
        }
        assert(all.take(i as int) =~= all);
    }
    *artifact = out;
}

/// The text of the sections is the text of those before `i` and then the
/// text of those from `i` on.
pub proof fn lemma_sections_text_split(s: Seq<Section>, i: int)
    requires
        0 <= i <= s.len(),
    ensures
        sections_text(s) == sections_text(s.take(i)) + sections_text(s.skip(i)),
    decreases s.len(),
{
    if i == s.len() {
        assert(s.take(i) =~= s);
        assert(s.skip(i) =~= Seq::<Section>::empty());
        assert(sections_text(s) =~= sections_text(s) + Seq::<char>::empty());
    } else {
        lemma_sections_text_split(s.drop_last(), i);
        assert(s.drop_last().take(i) =~= s.take(i));
        assert(s.skip(i).drop_last() =~= s.drop_last().skip(i));
        assert(s.skip(i).last() == s.last());
        assert(sections_text(s) =~= sections_text(s.take(i)) + sections_text(s.skip(i)));
    }
}

/// The section at `i` stands in the text at its start, whole.
pub proof fn lemma_section_in_text(s: Seq<Section>, i: int)
    requires
        0 <= i < s.len(),
    ensures
        section_start(s, i) + section_text(s[i]).len() == section_start(s, i + 1),
        section_start(s, i + 1) <= sections_text(s).len(),
        sections_text(s).subrange(section_start(s, i), section_start(s, i + 1)) == section_text(
            s[i],
        ),
{
    lemma_sections_text_split(s, i + 1);
    assert(s.take(i + 1).drop_last() =~= s.take(i));
    assert(s.take(i + 1).last() == s[i]);
    assert(sections_text(s).subrange(section_start(s, i), section_start(s, i + 1))
        =~= section_text(s[i]));
}

/// A later section starts no earlier than an earlier one ends.
pub proof fn lemma_section_starts_rise(s: Seq<Section>, i: int, j: int)
    requires
        0 <= i <= j <= s.len(),
    ensures
        section_start(s, i) <= section_start(s, j),
    decreases j - i,
{
    if i < j {
        lemma_section_starts_rise(s, i, j - 1);
        lemma_section_in_text(s, j - 1);
    }
}

/// In the report of a well-formed list, the section of a sheet ends before
/// the section of every sheet whose name comes later begins, whatever the
/// order in which the sheets came into the list.
pub proof fn lemma_report_in_name_order(list: NotificationList, i: int, j: int)
    requires
        list.wf(),
        0 <= i < list.sections().len(),
        0 <= j < list.sections().len(),
        lex_less(list.sections()[i].name, list.sections()[j].name),
    ensures
        i < j,
        report_text(list.sections()).subrange(
            section_start(list.sections(), i),
            section_start(list.sections(), i + 1),
        ) == section_text(list.sections()[i]),
        report_text(list.sections()).subrange(
            section_start(list.sections(), j),
            section_start(list.sections(), j + 1),
        ) == section_text(list.sections()[j]),
        section_start(list.sections(), i) < section_start(list.sections(), i + 1)
            <= section_start(list.sections(), j),
{
    let s = list.sections();
    if j == i {
        lemma_lex_irreflexive(s[i].name, 0);
    } else if j < i {
        assert(lex_less(s[j].name, s[i].name));
        lemma_lex_asymmetric(s[j].name, s[i].name, 0);
    }
    lemma_section_in_text(s, i);
    lemma_section_in_text(s, j);
    lemma_section_starts_rise(s, i + 1, j);
}

/// Two well-formed lists that hold the same entries for the same sheets give
/// the same report.
pub proof fn lemma_report_of_mapping(a: NotificationList, b: NotificationList)
    requires
        a.wf(),
        b.wf(),
        a@ == b@,
    ensures
        report_text(a.sections()) == report_text(b.sections()),
{
    lemma_rising_unique(a.sections(), b.sections());
}

} // verus!
