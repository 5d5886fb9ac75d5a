//! How the text of a unit file is read: where its lines end, what each line
//! says and which section an entry belongs to. This is the reading that the
//! service manager gives a unit file, stated as a model; the library itself
//! only writes. A unit file that is written from settings without line
//! breaks is read back as the sections that it was written from.

use vstd::prelude::*;
use crate::render::{
    entries_text, entry_text, header_text, section_text, sections_text, Section,
};
use crate::service_struct::Entry;

verus! {

/// What one line of a unit file says.
pub enum Line {
    /// An empty line.
    Blank,
    /// The title of a section, which it opens.
    Header(Seq<char>),
    /// An entry of the section that was opened last.
    Setting(Entry),
    /// A line that is none of these.
    Other(Seq<char>),
}

/// The place of the first `mark` in `text`, or the length of `text` where it has none.
pub open spec fn first_place(text: Seq<char>, mark: char) -> int
    decreases text.len(),
{
    if text.len() == 0 {
        0
    } else if text[0] == mark {
        0
    } else {
        1 + first_place(text.drop_first(), mark)
    }
}

/// True when `mark` does not occur in `text`.
pub open spec fn free_of(text: Seq<char>, mark: char) -> bool {
    forall|i: int| 0 <= i < text.len() ==> text[i] != mark
}

/// The lines of a text: the pieces that line breaks end, and what follows the
/// last line break, if anything does.
pub open spec fn lines_of(text: Seq<char>) -> Seq<Seq<char>>
    decreases text.len(),
{
    if text.len() == 0 {
        Seq::empty()
    } else {
        let k = first_place(text, '\n');
        if 0 <= k < text.len() {
            seq![text.take(k)] + lines_of(text.skip(k + 1))
        } else {
            seq![text]
        }
    }
}

/// What a line says. A line in square brackets is a title; another line with
/// an equals sign is an entry, whose key ends at the first equals sign.
pub open spec fn read_line(line: Seq<char>) -> Line {
    if line.len() == 0 {
        Line::Blank
    } else if line.len() >= 2 && line[0] == '[' && line.last() == ']' {
        Line::Header(line.subrange(1, line.len() - 1))
    } else {
        let k = first_place(line, '=');
        if k < line.len() {
            Line::Setting(Entry { key: line.take(k), value: line.skip(k + 1) })
        } else {
            Line::Other(line)
        }
    }
}

/// The sections that a list of lines makes up. An entry goes to the section
/// that was opened last; an entry before the first title belongs to none.
pub open spec fn read_sections(lines: Seq<Line>) -> Seq<Section>
    decreases lines.len(),
{
    if lines.len() == 0 {
        Seq::empty()
    } else {
        let before = read_sections(lines.drop_last());
        match lines.last() {
            Line::Header(title) => before.push(Section { title, entries: Seq::empty() }),
            Line::Setting(e) => if before.len() == 0 {
                before
            } else {
                before.update(
                    before.len() - 1,
                    Section { title: before.last().title, entries: before.last().entries.push(e) },
                )
            },
            _ => before,
        }
    }
}

/// The sections that a text holds when it is read as a unit file.
pub open spec fn read_unit(text: Seq<char>) -> Seq<Section> {
    read_sections(lines_of(text).map_values(|l: Seq<char>| read_line(l)))
}

/// The text of a line, without the line break that ends it.
pub open spec fn line_text(line: Line) -> Seq<char> {
    match line {
        Line::Blank => Seq::empty(),
        Line::Header(title) => seq!['['] + title + seq![']'],
        Line::Setting(e) => e.key + seq!['='] + e.value,
        Line::Other(text) => text,
    }
}

/// The text of a list of lines, each ended by a line break.
pub open spec fn lines_text(lines: Seq<Line>) -> Seq<char>
    decreases lines.len(),
{
    if lines.len() == 0 {
        Seq::empty()
    } else {
        line_text(lines[0]) + seq!['\n'] + lines_text(lines.drop_first())
    }
}

/// True of an entry that is read back as it was written: neither its key nor
/// its value holds a line break, and its key holds no equals sign and does
/// not begin with an opening bracket.
pub open spec fn plain_entry(e: Entry) -> bool {
    &&& free_of(e.key, '\n')
    &&& free_of(e.key, '=')
    &&& free_of(e.value, '\n')
    &&& (e.key.len() > 0 ==> e.key[0] != '[')
}

/// True of a line that is read back as it was written.
pub open spec fn plain_line(line: Line) -> bool {
    match line {
        Line::Blank => true,
        Line::Header(title) => free_of(title, '\n'),
        Line::Setting(e) => plain_entry(e),
        Line::Other(_) => false,
    }
}

/// True of a section that is read back as it was written.
pub open spec fn plain_section(s: Section) -> bool {
    &&& free_of(s.title, '\n')
    &&& forall|i: int| 0 <= i < s.entries.len() ==> plain_entry(#[trigger] s.entries[i])
}

/// True of a line whose text holds no line break.
pub open spec fn single_line(line: Line) -> bool {
    free_of(line_text(line), '\n')
}

/// True of a section whose title, keys and values hold no line break.
pub open spec fn single_line_section(s: Section) -> bool {
    &&& free_of(s.title, '\n')
    &&& forall|i: int|
        0 <= i < s.entries.len() ==> free_of((#[trigger] s.entries[i]).key, '\n') && free_of(
            s.entries[i].value,
            '\n',
        )
}

/// The lines as each of them is read from its own text.
pub open spec fn as_read(lines: Seq<Line>) -> Seq<Line> {
    lines.map_values(|l: Line| read_line(line_text(l)))
}

/// True when the `i`-th section is the first with the title `title`.
pub open spec fn is_first_titled(sections: Seq<Section>, title: Seq<char>, i: int) -> bool {
    &&& 0 <= i < sections.len()
    &&& sections[i].title == title
    &&& forall|j: int| 0 <= j < i ==> (#[trigger] sections[j]).title != title
}

/// The entries of the first section with the title `title`; none where no
/// section has that title.
pub open spec fn entries_titled(sections: Seq<Section>, title: Seq<char>) -> Seq<Entry> {
    if exists|i: int| is_first_titled(sections, title, i) {
        sections[choose|i: int| is_first_titled(sections, title, i)].entries
    } else {
        Seq::empty()
    }
}

/// The lines of a section: its title, then its entries.
pub open spec fn section_lines(s: Section) -> Seq<Line> {
    seq![Line::Header(s.title)] + s.entries.map_values(|e: Entry| Line::Setting(e))
}

/// The lines of a list of sections, an empty line between each two.
pub open spec fn unit_lines(sections: Seq<Section>) -> Seq<Line>
    decreases sections.len(),
{
    if sections.len() == 0 {
        Seq::empty()
    } else if sections.len() == 1 {
        section_lines(sections[0])
    } else {
        unit_lines(sections.drop_last()) + seq![Line::Blank] + section_lines(sections.last())
    }
}

/// The first `mark` of a text that begins with a piece free of it and goes on
/// with the mark stands right after that piece.
pub proof fn lemma_first_place_after(head: Seq<char>, mark: char, tail: Seq<char>)
    requires
        free_of(head, mark),
    ensures
        first_place(head + seq![mark] + tail, mark) == head.len(),
    decreases head.len(),
{
    let text = head + seq![mark] + tail;
    if head.len() == 0 {
        assert(text[0] == mark);
    } else {
        assert(text[0] == head[0]);
        assert(text.drop_first() =~= head.drop_first() + seq![mark] + tail);
        assert forall|i: int| 0 <= i < head.drop_first().len() implies head.drop_first()[i] != mark by {
            assert(head.drop_first()[i] == head[i + 1]);
        }
        lemma_first_place_after(head.drop_first(), mark, tail);
    }
}

/// A text that begins with a line and its line break has that line first,
/// then the lines of the rest.
pub proof fn lemma_lines_of_first(head: Seq<char>, tail: Seq<char>)
    requires
        free_of(head, '\n'),
    ensures
        lines_of(head + seq!['\n'] + tail) == seq![head] + lines_of(tail),
{
    let text = head + seq!['\n'] + tail;
    lemma_first_place_after(head, '\n', tail);
    assert(text.take(head.len() as int) =~= head);
    assert(text.skip(head.len() as int + 1) =~= tail);
}

/// The text of two lists of lines, one after the other.
pub proof fn lemma_lines_text_concat(a: Seq<Line>, b: Seq<Line>)
    ensures
        lines_text(a + b) == lines_text(a) + lines_text(b),
    decreases a.len(),
{
    if a.len() == 0 {
        assert(a + b =~= b);
        assert(lines_text(a) + lines_text(b) =~= lines_text(b));
    } else {
        assert((a + b)[0] == a[0]);
        assert((a + b).drop_first() =~= a.drop_first() + b);
        lemma_lines_text_concat(a.drop_first(), b);
        assert(lines_text(a + b) =~= lines_text(a) + lines_text(b));
    }
}

/// The text of a single line.
pub proof fn lemma_lines_text_single(l: Line)
    ensures
        lines_text(seq![l]) == line_text(l) + seq!['\n'],
{
    let s = seq![l];
    assert(s.drop_first() =~= Seq::<Line>::empty());
    assert(lines_text(s.drop_first()) =~= Seq::<char>::empty());
    assert(lines_text(s) =~= line_text(l) + seq!['\n']);
}

/// The text of a plain line holds no line break.
pub proof fn lemma_plain_line_has_no_break(l: Line)
    requires
        plain_line(l),
    ensures
        single_line(l),
{
}

/// A plain line is read as what it was written from.
pub proof fn lemma_read_line(l: Line)
    requires
        plain_line(l),
    ensures
        read_line(line_text(l)) == l,
{
    let text = line_text(l);
    match l {
        Line::Blank => {},
        Line::Header(title) => {
            assert(text.subrange(1, text.len() - 1) =~= title);
        },
        Line::Setting(e) => {
            assert(text =~= e.key + seq!['='] + e.value);
            lemma_first_place_after(e.key, '=', e.value);
            assert(text.take(e.key.len() as int) =~= e.key);
            assert(text.skip(e.key.len() as int + 1) =~= e.value);
            if e.key.len() > 0 {
                assert(text[0] == e.key[0]);
            } else {
                assert(text[0] == '=');
            }
        },
        Line::Other(_) => {},
    }
}

/// The text of lines without line breaks is split into the texts of the lines.
pub proof fn lemma_lines_of_text(lines: Seq<Line>)
    requires
        forall|i: int| 0 <= i < lines.len() ==> single_line(#[trigger] lines[i]),
    ensures
        lines_of(lines_text(lines)) == lines.map_values(|l: Line| line_text(l)),
    decreases lines.len(),
{
    let texts = lines.map_values(|l: Line| line_text(l));
    if lines.len() == 0 {
        assert(lines_of(lines_text(lines)) =~= texts);
    } else {
        let rest = lines.drop_first();
        assert forall|i: int| 0 <= i < rest.len() implies single_line(#[trigger] rest[i]) by {
            assert(rest[i] == lines[i + 1]);
        }
        lemma_lines_of_text(rest);
        assert(single_line(lines[0]));
        lemma_lines_of_first(line_text(lines[0]), lines_text(rest));
        assert(seq![line_text(lines[0])] + rest.map_values(|l: Line| line_text(l)) =~= texts);
    }
}

/// The text of lines without line breaks is read as each line is read from
/// its own text.
pub proof fn lemma_read_as_read(lines: Seq<Line>)
    requires
        forall|i: int| 0 <= i < lines.len() ==> single_line(#[trigger] lines[i]),
    ensures
        lines_of(lines_text(lines)).map_values(|l: Seq<char>| read_line(l)) == as_read(lines),
{
    lemma_lines_of_text(lines);
    assert(lines_of(lines_text(lines)).map_values(|l: Seq<char>| read_line(l)) =~= as_read(lines));
}

/// Plain lines are read from their text as they were written.
pub proof fn lemma_read_lines(lines: Seq<Line>)
    requires
        forall|i: int| 0 <= i < lines.len() ==> plain_line(#[trigger] lines[i]),
    ensures
        lines_of(lines_text(lines)).map_values(|l: Seq<char>| read_line(l)) == lines,
{
    assert forall|i: int| 0 <= i < lines.len() implies single_line(#[trigger] lines[i]) by {
        lemma_plain_line_has_no_break(lines[i]);
    }
    lemma_read_as_read(lines);
    assert forall|i: int| 0 <= i < lines.len() implies as_read(lines)[i] == lines[i] by {
        assert(plain_line(lines[i]));
        lemma_read_line(lines[i]);
    }
    assert(as_read(lines) =~= lines);
}

/// The entries of a group as lines.
pub open spec fn setting_lines(entries: Seq<Entry>) -> Seq<Line> {
    entries.map_values(|e: Entry| Line::Setting(e))
}

/// The lines of a list of entries are the text of the entries as lines.
pub proof fn lemma_entries_text_is_lines_text(entries: Seq<Entry>)
    ensures
        entries_text(entries) == lines_text(setting_lines(entries)),
    decreases entries.len(),
{
    if entries.len() == 0 {
        assert(setting_lines(entries) =~= Seq::<Line>::empty());
    } else {
        let last = Line::Setting(entries.last());
        lemma_entries_text_is_lines_text(entries.drop_last());
        assert(setting_lines(entries) =~= setting_lines(entries.drop_last()) + seq![last]);
        lemma_lines_text_concat(setting_lines(entries.drop_last()), seq![last]);
        lemma_lines_text_single(last);
        assert(line_text(last) + seq!['\n'] =~= entry_text(entries.last()));
    }
}

/// The text of a section is the text of its lines.
pub proof fn lemma_section_text_is_lines_text(s: Section)
    ensures
        section_text(s) == lines_text(section_lines(s)),
{
    let header = Line::Header(s.title);
    lemma_entries_text_is_lines_text(s.entries);
    lemma_lines_text_concat(seq![header], setting_lines(s.entries));
    lemma_lines_text_single(header);
    assert(line_text(header) + seq!['\n'] =~= header_text(s.title));
}

/// The text of a list of sections is the text of its lines.
pub proof fn lemma_sections_text_is_lines_text(sections: Seq<Section>)
    ensures
        sections_text(sections) == lines_text(unit_lines(sections)),
    decreases sections.len(),
{
    if sections.len() == 0 {
    } else if sections.len() == 1 {
        lemma_section_text_is_lines_text(sections[0]);
    } else {
        let before = unit_lines(sections.drop_last());
        lemma_sections_text_is_lines_text(sections.drop_last());
        lemma_section_text_is_lines_text(sections.last());
        lemma_lines_text_concat(before + seq![Line::Blank], section_lines(sections.last()));
        lemma_lines_text_concat(before, seq![Line::Blank]);
        lemma_lines_text_single(Line::Blank);
        assert(line_text(Line::Blank) + seq!['\n'] =~= seq!['\n']);
    }
}

/// Entries that follow the lines of at least one section are read into the
/// section that was opened last.
pub proof fn lemma_read_settings(lines: Seq<Line>, entries: Seq<Entry>)
    requires
        read_sections(lines).len() > 0,
    ensures
        read_sections(lines + setting_lines(entries)) == read_sections(lines).update(
            read_sections(lines).len() - 1,
            Section {
                title: read_sections(lines).last().title,
                entries: read_sections(lines).last().entries + entries,
            },
        ),
    decreases entries.len(),
{
    let before = read_sections(lines);
    let open = before.last();
    if entries.len() == 0 {
        assert(lines + setting_lines(entries) =~= lines);
        assert(open.entries + entries =~= open.entries);
        assert(before.update(before.len() - 1, Section { title: open.title, entries: open.entries })
            =~= before);
    } else {
        let all = lines + setting_lines(entries);
        lemma_read_settings(lines, entries.drop_last());
        assert(all.drop_last() =~= lines + setting_lines(entries.drop_last()));
        assert(all.last() == Line::Setting(entries.last()));
        assert(open.entries + entries =~= (open.entries + entries.drop_last()).push(entries.last()));
        assert(read_sections(all) =~= before.update(
            before.len() - 1,
            Section { title: open.title, entries: open.entries + entries },
        ));
    }
}

/// The lines of a section, after any lines, are read as one more section.
pub proof fn lemma_read_section(lines: Seq<Line>, s: Section)
    ensures
        read_sections(lines + section_lines(s)) == read_sections(lines).push(s),
{
    let header = Line::Header(s.title);
    let opened = lines + seq![header];
    assert(opened.drop_last() =~= lines);
    assert(opened.last() == header);
    let empty = Section { title: s.title, entries: Seq::empty() };
    assert(read_sections(opened) == read_sections(lines).push(empty));
    lemma_read_settings(opened, s.entries);
    assert(lines + section_lines(s) =~= opened + setting_lines(s.entries));
    assert(empty.entries + s.entries =~= s.entries);
    assert(read_sections(lines).push(empty).update(read_sections(lines).len() as int, s)
        =~= read_sections(lines).push(s));
}

/// The lines of a list of sections are read as these sections.
pub proof fn lemma_read_unit_lines(sections: Seq<Section>)
    ensures
        read_sections(unit_lines(sections)) == sections,
    decreases sections.len(),
{
    if sections.len() == 0 {
        assert(read_sections(unit_lines(sections)) =~= sections);
    } else if sections.len() == 1 {
        lemma_read_section(Seq::empty(), sections[0]);
        assert(Seq::<Line>::empty() + section_lines(sections[0]) =~= section_lines(sections[0]));
        assert(Seq::<Section>::empty().push(sections[0]) =~= sections);
    } else {
        let before = unit_lines(sections.drop_last());
        let parted = before + seq![Line::Blank];
        lemma_read_unit_lines(sections.drop_last());
        assert(parted.drop_last() =~= before);
        assert(parted.last() == Line::Blank);
        assert(read_sections(parted) == sections.drop_last());
        lemma_read_section(parted, sections.last());
        assert(sections.drop_last().push(sections.last()) =~= sections);
    }
}

/// The lines of a plain section are plain.
pub proof fn lemma_section_lines_plain(s: Section)
    requires
        plain_section(s),
    ensures
        forall|i: int| 0 <= i < section_lines(s).len() ==> plain_line(#[trigger] section_lines(s)[i]),
{
    assert forall|i: int| 0 <= i < section_lines(s).len() implies plain_line(
        #[trigger] section_lines(s)[i],
    ) by {
        if i > 0 {
            assert(section_lines(s)[i] == Line::Setting(s.entries[i - 1]));
            assert(plain_entry(s.entries[i - 1]));
        }
    }
}

/// The lines of plain sections are plain.
pub proof fn lemma_unit_lines_plain(sections: Seq<Section>)
    requires
        forall|i: int| 0 <= i < sections.len() ==> plain_section(#[trigger] sections[i]),
    ensures
        forall|i: int|
            0 <= i < unit_lines(sections).len() ==> plain_line(#[trigger] unit_lines(sections)[i]),
    decreases sections.len(),
{
    if sections.len() == 0 {
    } else if sections.len() == 1 {
        assert(plain_section(sections[0]));
        lemma_section_lines_plain(sections[0]);
    } else {
        let rest = sections.drop_last();
        assert forall|i: int| 0 <= i < rest.len() implies plain_section(#[trigger] rest[i]) by {
            assert(rest[i] == sections[i]);
        }
        lemma_unit_lines_plain(rest);
        assert(plain_section(sections.last()));
        lemma_section_lines_plain(sections.last());
        let before = unit_lines(rest);
        let last = section_lines(sections.last());
        assert forall|i: int| 0 <= i < unit_lines(sections).len() implies plain_line(
            #[trigger] unit_lines(sections)[i],
        ) by {
            if i < before.len() {
                assert(unit_lines(sections)[i] == before[i]);
            } else if i == before.len() {
                assert(unit_lines(sections)[i] == Line::Blank);
            } else {
                assert(unit_lines(sections)[i] == last[i - before.len() - 1]);
            }
        }
    }
}

/// A unit file that is written from plain sections is read back as these sections.
pub proof fn lemma_read_back(sections: Seq<Section>)
    requires
        forall|i: int| 0 <= i < sections.len() ==> plain_section(#[trigger] sections[i]),
    ensures
        read_unit(sections_text(sections)) == sections,
{
    lemma_sections_text_is_lines_text(sections);
    lemma_unit_lines_plain(sections);
    lemma_read_lines(unit_lines(sections));
    lemma_read_unit_lines(sections);
}

/// The line of an entry is never read as an empty line, and where it is read
/// as a title, the title holds an equals sign.
pub proof fn lemma_read_setting(e: Entry)
    ensures
        read_line(line_text(Line::Setting(e))) !is Blank,
        read_line(line_text(Line::Setting(e))) matches Line::Header(title) ==> !free_of(title, '='),
{
    let text = line_text(Line::Setting(e));
    let at = e.key.len() as int;
    assert(text[at] == '=');
    if read_line(text) is Header {
        let title = text.subrange(1, text.len() - 1);
        assert(title[at - 1] == '=');
    }
}

/// The line of a title is read as that title.
pub proof fn lemma_read_header(title: Seq<char>)
    ensures
        read_line(line_text(Line::Header(title))) == Line::Header(title),
{
    let text = line_text(Line::Header(title));
    assert(text.subrange(1, text.len() - 1) =~= title);
}

/// Every section that is read from lines was opened by a line with its title.
pub proof fn lemma_section_has_header(lines: Seq<Line>, j: int) -> (i: int)
    requires
        0 <= j < read_sections(lines).len(),
    ensures
        0 <= i < lines.len(),
        lines[i] == Line::Header(read_sections(lines)[j].title),
    decreases lines.len(),
{
    let before = read_sections(lines.drop_last());
    match lines.last() {
        Line::Header(title) => {
            if j == before.len() {
                lines.len() - 1
            } else {
                lemma_section_has_header(lines.drop_last(), j)
            }
        },
        _ => lemma_section_has_header(lines.drop_last(), j),
    }
}

/// Lines that follow the lines of at least one section change nothing of
/// the sections before the last.
pub proof fn lemma_read_sections_extend(lines: Seq<Line>, more: Seq<Line>)
    requires
        read_sections(lines).len() > 0,
    ensures
        read_sections(lines + more).len() >= read_sections(lines).len(),
        forall|k: int|
            0 <= k < read_sections(lines).len() - 1 ==> read_sections(lines + more)[k]
                == #[trigger] read_sections(lines)[k],
        read_sections(lines + more)[read_sections(lines).len() - 1].title == read_sections(
            lines,
        ).last().title,
    decreases more.len(),
{
    if more.len() == 0 {
        assert(lines + more =~= lines);
    } else {
        let all = lines + more;
        assert(all.drop_last() =~= lines + more.drop_last());
        assert(all.last() == more.last());
        lemma_read_sections_extend(lines, more.drop_last());
    }
}

/// The lines of two lists of sections, one after the other.
pub proof fn lemma_unit_lines_concat(a: Seq<Section>, b: Seq<Section>)
    requires
        a.len() > 0,
        b.len() > 0,
    ensures
        unit_lines(a + b) == unit_lines(a) + seq![Line::Blank] + unit_lines(b),
    decreases b.len(),
{
    let all = a + b;
    assert(all.last() == b.last());
    if b.len() == 1 {
        assert(all.drop_last() =~= a);
        assert(b[0] == b.last());
    } else {
        assert(all.drop_last() =~= a + b.drop_last());
        lemma_unit_lines_concat(a, b.drop_last());
        assert(unit_lines(all) =~= unit_lines(a) + seq![Line::Blank] + unit_lines(b));
    }
}

/// The lines of sections begin with the title of the first section.
pub proof fn lemma_unit_lines_begin(sections: Seq<Section>)
    requires
        sections.len() > 0,
    ensures
        unit_lines(sections).len() > 0,
        unit_lines(sections)[0] == Line::Header(sections[0].title),
    decreases sections.len(),
{
    if sections.len() > 1 {
        lemma_unit_lines_begin(sections.drop_last());
    }
}

/// Every line of the lines of sections is an empty line, an entry, or the
/// title of one of the sections.
pub proof fn lemma_unit_lines_origin(sections: Seq<Section>, i: int)
    requires
        0 <= i < unit_lines(sections).len(),
    ensures
        match unit_lines(sections)[i] {
            Line::Blank => true,
            Line::Setting(_) => true,
            Line::Header(title) => exists|q: int|
                0 <= q < sections.len() && (#[trigger] sections[q]).title == title,
            Line::Other(_) => false,
        },
    decreases sections.len(),
{
    if sections.len() == 1 {
        assert(sections[0].title == sections[0].title);
    } else if sections.len() > 1 {
        let before = unit_lines(sections.drop_last());
        if i < before.len() {
            lemma_unit_lines_origin(sections.drop_last(), i);
            if unit_lines(sections)[i] is Header {
                let title = unit_lines(sections)[i]->Header_0;
                let q = choose|q: int|
                    0 <= q < sections.drop_last().len() && (#[trigger] sections.drop_last()[q]).title
                        == title;
                assert(sections[q].title == title);
            }
        } else if i > before.len() {
            assert(sections[sections.len() - 1].title == sections.last().title);
        }
    }
}

/// The lines of sections without line breaks hold no line break.
pub proof fn lemma_unit_lines_single(sections: Seq<Section>)
    requires
        forall|i: int| 0 <= i < sections.len() ==> single_line_section(#[trigger] sections[i]),
    ensures
        forall|i: int|
            0 <= i < unit_lines(sections).len() ==> single_line(#[trigger] unit_lines(sections)[i]),
    decreases sections.len(),
{
    if sections.len() == 0 {
    } else {
        let last = section_lines(sections.last());
        assert(single_line_section(sections.last()));
        assert forall|i: int| 0 <= i < last.len() implies single_line(#[trigger] last[i]) by {
            if i > 0 {
                assert(last[i] == Line::Setting(sections.last().entries[i - 1]));
            }
        }
        if sections.len() > 1 {
            let rest = sections.drop_last();
            assert forall|i: int| 0 <= i < rest.len() implies single_line_section(#[trigger] rest[i]) by {
                assert(rest[i] == sections[i]);
            }
            lemma_unit_lines_single(rest);
            let before = unit_lines(rest);
            assert forall|i: int| 0 <= i < unit_lines(sections).len() implies single_line(
                #[trigger] unit_lines(sections)[i],
            ) by {
                if i < before.len() {
                    assert(unit_lines(sections)[i] == before[i]);
                } else if i == before.len() {
                    assert(unit_lines(sections)[i] == Line::Blank);
                } else {
                    assert(unit_lines(sections)[i] == last[i - before.len() - 1]);
                }
            }
        }
    }
}

/// Where no section has the title `title`, which holds no equals sign, no
/// section that is read from the lines of the sections has that title,
/// whatever the entries are.
pub proof fn lemma_title_not_read(sections: Seq<Section>, title: Seq<char>)
    requires
        free_of(title, '='),
        forall|q: int| 0 <= q < sections.len() ==> (#[trigger] sections[q]).title != title,
    ensures
        forall|j: int|
            0 <= j < read_sections(as_read(unit_lines(sections))).len() ==> (#[trigger] read_sections(
                as_read(unit_lines(sections)),
            )[j]).title != title,
{
    let lines = unit_lines(sections);
    let read = read_sections(as_read(lines));
    assert forall|j: int| 0 <= j < read.len() implies (#[trigger] read[j]).title != title by {
        let i = lemma_section_has_header(as_read(lines), j);
        lemma_unit_lines_origin(sections, i);
        match lines[i] {
            Line::Setting(e) => {
                lemma_read_setting(e);
            },
            Line::Header(t) => {
                lemma_read_header(t);
            },
            _ => {},
        }
    }
}

/// Where the `k`-th section is plain and the first with its title, which
/// holds no equals sign, the entries that are read under that title from
/// the lines of the sections are the entries of that section, whatever the
/// entries of the other sections are, as long as they hold no line break.
pub proof fn lemma_section_read(sections: Seq<Section>, k: int)
    requires
        0 <= k < sections.len(),
        plain_section(sections[k]),
        free_of(sections[k].title, '='),
        forall|q: int| 0 <= q < k ==> (#[trigger] sections[q]).title != sections[k].title,
    ensures
        entries_titled(read_sections(as_read(unit_lines(sections))), sections[k].title)
            == sections[k].entries,
{
    let title = sections[k].title;
    let front = sections.take(k);
    let back = sections.skip(k + 1);
    let own = seq![sections[k]];
    assert(sections =~= front + own + back);
    // The lines before the section, with the empty line that parts them from it.
    let before = if k == 0 {
        Seq::<Line>::empty()
    } else {
        unit_lines(front) + seq![Line::Blank]
    };
    let read_before = read_sections(as_read(before));
    assert forall|j: int| 0 <= j < read_before.len() implies (#[trigger] read_before[j]).title
        != title by {
        if k > 0 {
            assert forall|q: int| 0 <= q < front.len() implies (#[trigger] front[q]).title != title by {
                assert(front[q] == sections[q]);
            }
            lemma_title_not_read(front, title);
            let parted = as_read(unit_lines(front) + seq![Line::Blank]);
            assert(parted.drop_last() =~= as_read(unit_lines(front)));
            assert(parted.last() == Line::Blank);
            assert(read_before == read_sections(as_read(unit_lines(front))));
        } else {
            assert(as_read(before) =~= Seq::<Line>::empty());
        }
    }
    // The section itself is read as it was written.
    let upto = before + section_lines(sections[k]);
    lemma_section_lines_plain(sections[k]);
    assert(as_read(upto) =~= as_read(before) + section_lines(sections[k])) by {
        assert forall|i: int| 0 <= i < section_lines(sections[k]).len() implies read_line(
            line_text(#[trigger] section_lines(sections[k])[i]),
        ) == section_lines(sections[k])[i] by {
            lemma_read_line(section_lines(sections[k])[i]);
        }
    }
    lemma_read_section(as_read(before), sections[k]);
    let read_upto = read_sections(as_read(upto));
    assert(read_upto == read_before.push(sections[k]));
    assert(unit_lines(front + own) =~= upto) by {
        if k > 0 {
            lemma_unit_lines_concat(front, own);
        } else {
            assert(front + own =~= own);
        }
    }
    // What follows opens a section of its own, and leaves this one alone.
    let read = read_sections(as_read(unit_lines(sections)));
    if back.len() == 0 {
        assert(sections =~= front + own);
    } else {
        lemma_unit_lines_concat(front + own, back);
        lemma_unit_lines_begin(back);
        let rest = unit_lines(back);
        let opened = upto + seq![Line::Blank, rest[0]];
        assert(unit_lines(sections) =~= opened + rest.drop_first());
        assert(as_read(unit_lines(sections)) =~= as_read(opened) + as_read(rest.drop_first()));
        lemma_read_header(back[0].title);
        let read_opened = as_read(opened);
        assert(read_opened.drop_last().drop_last() =~= as_read(upto));
        assert(read_opened.drop_last().last() == Line::Blank);
        assert(read_opened.last() == Line::Header(back[0].title));
        assert(read_sections(read_opened.drop_last()) == read_upto);
        assert(read_sections(read_opened) == read_upto.push(
            Section { title: back[0].title, entries: Seq::empty() },
        ));
        lemma_read_sections_extend(read_opened, as_read(rest.drop_first()));
        assert(read_sections(read_opened)[read_before.len() as int] == sections[k]);
        assert(read[read_before.len() as int] == sections[k]);
        assert forall|j: int| 0 <= j < read_before.len() implies (#[trigger] read[j]).title
            != title by {
            assert(read[j] == read_sections(read_opened)[j]);
            assert(read_sections(read_opened)[j] == read_before[j]);
        }
    }
    assert(is_first_titled(read, title, read_before.len() as int));
    let c = choose|c: int| is_first_titled(read, title, c);
    assert(c == read_before.len());
}

} // verus!
