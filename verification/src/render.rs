//! The unit file of a service.
//!
//! A unit file is a list of sections. A section is a title in square brackets
//! on a line of its own, followed by one line `Key=Value` for each of its
//! entries. Sections are parted by one empty line. The groups of a service
//! become the sections `Install`, `Unit`, `Service` and `Environment`, in
//! this order; a group that the service does not have gives no section.
//!
//! In the `Service` section the fields stand in schema order, and an absent
//! field gives no line. An integer is written in decimal notation. A list
//! gives one line for each of its elements, all under the key of the field.
//! Strings are written as they are.

use vstd::prelude::*;
use crate::decimal::{decimal_string, decimal_text};
use crate::descriptor::{descriptor_fault, normalize, normalized, RawDescriptor};
use crate::error::{DeployError, ErrorView};
use crate::service_struct::{
    entries, fields_view, group_view, integers, texts, Entry, Field, FieldRef, MyService, ServiceView,
    Setting, TypedValue, ValueRef,
};

verus! {

/// One section of a unit file.
pub struct Section {
    pub title: Seq<char>,
    pub entries: Seq<Entry>,
}

/// The texts that a value is written as, one for each line that it takes.
pub open spec fn value_texts(v: TypedValue) -> Seq<Seq<char>> {
    match v {
        TypedValue::Text(s) => seq![s],
        TypedValue::Integer(n) => seq![decimal_text(n)],
        TypedValue::TextList(items) => items,
        TypedValue::IntegerList(items) => items.map_values(|n: int| decimal_text(n)),
    }
}

/// The texts that a field is written as: none where it is absent.
pub open spec fn field_texts(f: Field) -> Seq<Seq<char>> {
    match f.value {
        Some(v) => value_texts(v),
        None => Seq::empty(),
    }
}

/// The entries that a field gives to its section.
pub open spec fn field_entries(f: Field) -> Seq<Entry> {
    field_texts(f).map_values(|t: Seq<char>| Entry { key: f.key, value: t })
}

/// The entries of the `Service` section: those of each field, in the order of the fields.
pub open spec fn service_entries(fields: Seq<Field>) -> Seq<Entry>
    decreases fields.len(),
{
    if fields.len() == 0 {
        Seq::empty()
    } else {
        service_entries(fields.drop_last()) + field_entries(fields.last())
    }
}

/// The section of a group, if the service has the group.
pub open spec fn optional_section(title: Seq<char>, group: Option<Seq<Entry>>) -> Seq<Section> {
    match group {
        Some(entries) => seq![Section { title, entries }],
        None => Seq::empty(),
    }
}

/// The entries of the execution properties, if the service has them.
pub open spec fn service_group(service: Option<Seq<Field>>) -> Option<Seq<Entry>> {
    match service {
        Some(fields) => Some(service_entries(fields)),
        None => None,
    }
}

/// The sections of the unit file of a service.
pub open spec fn unit_sections(d: ServiceView) -> Seq<Section> {
    optional_section("Install"@, d.install) + optional_section("Unit"@, d.unit) + optional_section(
        "Service"@,
        service_group(d.service),
    ) + optional_section("Environment"@, d.environment)
}

/// The line of an entry, with the line break that ends it.
pub open spec fn entry_text(e: Entry) -> Seq<char> {
    e.key + seq!['='] + e.value + seq!['\n']
}

/// The lines of a list of entries.
pub open spec fn entries_text(entries: Seq<Entry>) -> Seq<char>
    decreases entries.len(),
{
    if entries.len() == 0 {
        Seq::empty()
    } else {
        entries_text(entries.drop_last()) + entry_text(entries.last())
    }
}

/// The line that opens a section, with the line break that ends it.
pub open spec fn header_text(title: Seq<char>) -> Seq<char> {
    seq!['['] + title + seq![']', '\n']
}

/// The lines of a section.
pub open spec fn section_text(s: Section) -> Seq<char> {
    header_text(s.title) + entries_text(s.entries)
}

/// The text of a list of sections, an empty line between each two.
pub open spec fn sections_text(sections: Seq<Section>) -> Seq<char>
    decreases sections.len(),
{
    if sections.len() == 0 {
        Seq::empty()
    } else if sections.len() == 1 {
        section_text(sections[0])
    } else {
        sections_text(sections.drop_last()) + seq!['\n'] + section_text(sections.last())
    }
}

/// The text of the unit file of a service.
pub open spec fn unit_text(d: ServiceView) -> Seq<char> {
    sections_text(unit_sections(d))
}

/// The name of the unit file of a service called `name`.
pub open spec fn unit_file_name(name: Seq<char>) -> Seq<char> {
    name + ".service"@
}

/// A unit file that is ready to be written: its file name and its text.
#[derive(Debug, Clone, PartialEq, Eq)]
pub struct RenderedUnit {
    pub filename: String,
    pub text: String,
}

/// The lines of two lists of entries, one after the other, are the lines of
/// the lists joined.
pub proof fn lemma_entries_text_concat(a: Seq<Entry>, b: Seq<Entry>)
    ensures
        entries_text(a + b) == entries_text(a) + entries_text(b),
    decreases b.len(),
{
    if b.len() == 0 {
        assert(a + b =~= a);
        assert(entries_text(a) + entries_text(b) =~= entries_text(a));
    } else {
        assert((a + b).drop_last() =~= a + b.drop_last());
        assert((a + b).last() == b.last());
        lemma_entries_text_concat(a, b.drop_last());
        assert(entries_text(a + b) =~= entries_text(a) + entries_text(b));
    }
}

/// The lines of a single entry are its line.
pub proof fn lemma_entries_text_single(e: Entry)
    ensures
        entries_text(seq![e]) == entry_text(e),
{
    let s = seq![e];
    assert(s.drop_last() =~= Seq::<Entry>::empty());
    assert(entries_text(s.drop_last()) =~= Seq::<char>::empty());
    assert(s.last() == e);
    assert(entries_text(s) =~= entry_text(e));
}

/// Appends the line of the entry `key`, `value`.
fn append_entry(out: &mut String, key: &str, value: &str)
    ensures
        final(out)@ == old(out)@ + entry_text(Entry { key: key@, value: value@ }),
{
    proof {
        reveal_strlit("=");
        reveal_strlit("\n");
    }
    out.append(key);
    out.append("=");
    out.append(value);
    out.append("\n");
    assert("="@ =~= seq!['=']);
    assert("\n"@ =~= seq!['\n']);
    assert(out@ =~= old(out)@ + entry_text(Entry { key: key@, value: value@ }));
}

/// Appends one line under `key` for each string of `items`.
fn append_text_items(out: &mut String, key: &str, items: &Vec<String>)
    ensures
        final(out)@ == old(out)@ + entries_text(
            field_entries(
                Field { key: key@, value: Some(TypedValue::TextList(texts(items@))) },
            ),
        ),
{
    let ghost all = field_entries(
        Field { key: key@, value: Some(TypedValue::TextList(texts(items@))) },
    );
    let mut i: usize = 0;
    assert(all.take(0) =~= Seq::<Entry>::empty());
    assert(out@ =~= old(out)@ + entries_text(all.take(0)));
    while i < items.len()
        invariant
            i <= items.len(),
            all.len() == items.len(),
            all == field_entries(
                Field { key: key@, value: Some(TypedValue::TextList(texts(items@))) },
            ),
            out@ == old(out)@ + entries_text(all.take(i as int)),
        decreases items.len() - i,
    {
        append_entry(out, key, items[i].as_str());
        proof {
            assert(all.take(i + 1).drop_last() =~= all.take(i as int));
            assert(all.take(i + 1).last() == Entry { key: key@, value: items@[i as int]@ });
            assert(out@ =~= old(out)@ + entries_text(all.take(i + 1)));
        }
        i += 1;
    }
    assert(all.take(i as int) =~= all);
}

/// Appends one line under `key` for each number of `items`.
fn append_integer_items(out: &mut String, key: &str, items: &Vec<i32>)
    ensures
        final(out)@ == old(out)@ + entries_text(
            field_entries(
                Field {
                    key: key@,
                    value: Some(TypedValue::IntegerList(integers(items@))),
                },
            ),
        ),
{
    let ghost all = field_entries(
        Field { key: key@, value: Some(TypedValue::IntegerList(integers(items@))) },
    );
    let mut i: usize = 0;
    assert(all.take(0) =~= Seq::<Entry>::empty());
    assert(out@ =~= old(out)@ + entries_text(all.take(0)));
    while i < items.len()
        invariant
            i <= items.len(),
            all.len() == items.len(),
            all == field_entries(
                Field {
                    key: key@,
                    value: Some(TypedValue::IntegerList(integers(items@))),
                },
            ),
            out@ == old(out)@ + entries_text(all.take(i as int)),
        decreases items.len() - i,
    {
        let number = decimal_string(items[i] as i64);
        append_entry(out, key, number.as_str());
        proof {
            assert(all.take(i + 1).drop_last() =~= all.take(i as int));
            assert(all.take(i + 1).last() == Entry { key: key@, value: decimal_text(items@[i as int] as int) });
            assert(out@ =~= old(out)@ + entries_text(all.take(i + 1)));
        }
        i += 1;
    }
    assert(all.take(i as int) =~= all);
}

/// Appends the lines of one field.
fn append_field(out: &mut String, field: &FieldRef<'_>)
    ensures
        final(out)@ == old(out)@ + entries_text(field_entries(field@)),
{
    match &field.value {
        None => {
            assert(field_entries(field@) =~= Seq::<Entry>::empty());
            assert(out@ =~= old(out)@ + entries_text(field_entries(field@)));
        },
        Some(ValueRef::Text(s)) => {
            append_entry(out, field.key, s.as_str());
            proof {
                let e = Entry { key: field.key@, value: s@ };
                assert(field_entries(field@) =~= seq![e]);
                lemma_entries_text_single(e);
            }
        },
        Some(ValueRef::Integer(n)) => {
            let number = decimal_string(*n as i64);
            append_entry(out, field.key, number.as_str());
            proof {
                let e = Entry { key: field.key@, value: decimal_text(*n as int) };
                assert(field_entries(field@) =~= seq![e]);
                lemma_entries_text_single(e);
            }
        },
        Some(ValueRef::TextList(items)) => {
            append_text_items(out, field.key, items);
        },
        Some(ValueRef::IntegerList(items)) => {
            append_integer_items(out, field.key, items);
        },
    }
}

/// Appends the lines of the fields, in their order.
fn append_fields(out: &mut String, fields: &Vec<FieldRef<'_>>)
    ensures
        final(out)@ == old(out)@ + entries_text(service_entries(fields_view(fields@))),
{
    let ghost all = fields_view(fields@);
    let mut i: usize = 0;
    assert(all.take(0) =~= Seq::<Field>::empty());
    assert(out@ =~= old(out)@ + entries_text(service_entries(all.take(0))));
    while i < fields.len()
        invariant
            i <= fields.len(),
            all == fields_view(fields@),
            out@ == old(out)@ + entries_text(service_entries(all.take(i as int))),
        decreases fields.len() - i,
    {
        append_field(out, &fields[i]);
        proof {
            assert(all.take(i + 1).drop_last() =~= all.take(i as int));
            assert(all.take(i + 1).last() == fields@[i as int]@);
            lemma_entries_text_concat(service_entries(all.take(i as int)), field_entries(fields@[i as int]@));
            assert(out@ =~= old(out)@ + entries_text(service_entries(all.take(i + 1))));
        }
        i += 1;
    }
    assert(all.take(i as int) =~= all);
}

/// Appends the lines of the settings, in their order.
fn append_settings(out: &mut String, settings: &Vec<Setting>)
    ensures
        final(out)@ == old(out)@ + entries_text(entries(settings@)),
{
    let ghost all = entries(settings@);
    let mut i: usize = 0;
    assert(all.take(0) =~= Seq::<Entry>::empty());
    assert(out@ =~= old(out)@ + entries_text(all.take(0)));
    while i < settings.len()
        invariant
            i <= settings.len(),
            all == entries(settings@),
            out@ == old(out)@ + entries_text(all.take(i as int)),
        decreases settings.len() - i,
    {
        append_entry(out, settings[i].key.as_str(), settings[i].value.as_str());
        proof {
            assert(all.take(i + 1).drop_last() =~= all.take(i as int));
            assert(all.take(i + 1).last() == settings@[i as int]@);
            assert(out@ =~= old(out)@ + entries_text(all.take(i + 1)));
        }
        i += 1;
    }
    assert(all.take(i as int) =~= all);
}

/// Appends the line that opens the section `title`, after an empty line if a
/// section was written before.
fn open_section(out: &mut String, after_another: bool, title: &str)
    ensures
        final(out)@ == old(out)@ + (if after_another {
            seq!['\n']
        } else {
            Seq::empty()
        }) + header_text(title@),
{
    proof {
        reveal_strlit("[");
        reveal_strlit("]\n");
        reveal_strlit("\n");
    }
    if after_another {
        out.append("\n");
    }
    out.append("[");
    out.append(title);
    out.append("]\n");
    assert("["@ =~= seq!['[']);
    assert("]\n"@ =~= seq![']', '\n']);
    assert("\n"@ =~= seq!['\n']);
    assert(out@ =~= old(out)@ + (if after_another {
        seq!['\n']
    } else {
        Seq::empty()
    }) + header_text(title@));
}

/// The text after one more section is the text before, an empty line if
/// there was a section before, and the lines of the new section.
proof fn lemma_sections_text_push(done: Seq<Section>, s: Section)
    ensures
        sections_text(done.push(s)) == sections_text(done) + (if done.len() > 0 {
            seq!['\n']
        } else {
            Seq::empty()
        }) + section_text(s),
{
    assert(done.push(s).drop_last() =~= done);
    assert(done.push(s).last() == s);
    if done.len() == 0 {
        assert(done.push(s)[0] == s);
        assert(sections_text(done) + Seq::<char>::empty() + section_text(s) =~= section_text(s));
    }
}

/// Appends the section of a free-form group, if the service has the group.
fn append_group(
    out: &mut String,
    after_another: bool,
    title: &str,
    group: &Option<Vec<Setting>>,
    Ghost(done): Ghost<Seq<Section>>,
) -> (written: bool)
    requires
        old(out)@ == sections_text(done),
        after_another == (done.len() > 0),
    ensures
        final(out)@ == sections_text(
            done + optional_section(title@, group_view(*group)),
        ),
        written == group is Some,
{
    match group {
        None => {
            assert(done + optional_section(title@, group_view(*group)) =~= done);
            false
        },
        Some(settings) => {
            open_section(out, after_another, title);
            append_settings(out, settings);
            proof {
                let s = Section { title: title@, entries: entries(settings@) };
                lemma_sections_text_push(done, s);
                assert(done + optional_section(title@, group_view(*group))
                    =~= done.push(s));
                assert(out@ =~= sections_text(done.push(s)));
            }
            true
        },
    }
}

/// Writes the unit file of a service: its name and its text, which are
/// decided by the service alone.
pub fn render_unit(service: &MyService) -> (unit: RenderedUnit)
    ensures
        unit.filename@ == unit_file_name(service@.name),
        unit.text@ == unit_text(service@),
{
    let mut filename = service.name.clone();
    filename.append(".service");
    let mut text = String::new();
    let ghost d = service@;
    let ghost mut done: Seq<Section> = Seq::empty();
    let mut started = append_group(&mut text, false, "Install", &service.install, Ghost(done));
    proof {
        done = done + optional_section("Install"@, d.install);
    }
    let unit_written = append_group(&mut text, started, "Unit", &service.unit, Ghost(done));
    started = started || unit_written;
    proof {
        done = done + optional_section("Unit"@, d.unit);
    }
    match &service.service {
        None => {
            assert(done + optional_section("Service"@, service_group(d.service)) =~= done);
        },
        Some(properties) => {
            open_section(&mut text, started, "Service");
            let fields = properties.fields();
            append_fields(&mut text, &fields);
            started = true;
            proof {
                let s = Section { title: "Service"@, entries: service_entries(properties@) };
                lemma_sections_text_push(done, s);
                assert(done + optional_section("Service"@, service_group(d.service)) =~= done.push(s));
                assert(text@ =~= sections_text(done.push(s)));
            }
        },
    }
    proof {
        done = done + optional_section("Service"@, service_group(d.service));
    }
    append_group(&mut text, started, "Environment", &service.environment, Ghost(done));
    proof {
        assert(Seq::<Section>::empty() + optional_section("Install"@, d.install) =~= optional_section(
            "Install"@,
            d.install,
        ));
    }
    RenderedUnit { filename, text }
}

/// Checks a description and writes its unit file. The description is refused
/// exactly when `normalize` refuses it, with the same failure.
pub fn render(raw: &RawDescriptor) -> (result: Result<RenderedUnit, DeployError>)
    ensures
        match result {
            Ok(unit) => {
                &&& descriptor_fault(raw@) is None
                &&& unit.filename@ == unit_file_name(raw@.name)
                &&& unit.text@ == unit_text(normalized(raw@))
            },
            Err(e) => descriptor_fault(raw@) is Some && e@ == (ErrorView::InvalidFieldValue {
                descriptor: raw.name@,
                field: descriptor_fault(raw@)->0,
            }),
        },
{
    match normalize(raw) {
        Ok(config) => Ok(render_unit(&config.my_service)),
        Err(e) => Err(e),
    }
}

} // verus!
