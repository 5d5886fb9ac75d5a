//! What a unit file keeps of the service that it was written for.
//!
//! The statements here are about the text that `render_unit` gives, read as
//! the service manager reads it (see `reading`). A string with a line break
//! is written as it is, and then reads as more than one line; so the
//! statements hold of services whose strings hold no line break. What is
//! read from the `Service` section then is what the execution properties
//! hold. For the whole unit file to be read back as it was written, the keys
//! of the free-form groups must be plain as well: without an equals sign,
//! and not beginning with an opening bracket.

use vstd::prelude::*;
use crate::decimal::{decimal_text, lemma_decimal_text};
use crate::descriptor::{
    decode, descriptor_fault, entry_fault, field_value, is_first_with_key, lemma_no_fault, lookup, normalized,
    DescriptorView, RawDescriptor,
};
use crate::reading::{
    as_read, entries_titled, free_of, is_first_titled, lemma_read_as_read, lemma_read_back,
    lemma_section_read, lemma_sections_text_is_lines_text, lemma_title_not_read,
    lemma_unit_lines_single, plain_entry, plain_section, read_sections, read_unit,
    single_line_section, unit_lines,
};
use crate::render::{
    field_entries, field_texts, optional_section, service_entries, service_group, unit_file_name,
    unit_sections, unit_text, value_texts, Section,
};
use crate::service_struct::{
    lemma_schema_keys_distinct, lemma_schema_kind_at, schema, Entry, Field, MyService,
    ServiceProperties, ServiceView, TypedValue,
};

verus! {

/// True of a key that can stand in front of an equals sign: it is not empty,
/// holds neither a line break nor an equals sign and does not begin with an
/// opening bracket.
pub open spec fn plain_key(key: Seq<char>) -> bool {
    &&& key.len() > 0
    &&& free_of(key, '\n')
    &&& free_of(key, '=')
    &&& key[0] != '['
}

/// True of a value whose strings hold no line break.
pub open spec fn plain_value(v: TypedValue) -> bool {
    match v {
        TypedValue::Text(s) => free_of(s, '\n'),
        TypedValue::TextList(items) => forall|i: int| 0 <= i < items.len() ==> free_of(#[trigger] items[i], '\n'),
        _ => true,
    }
}

/// True of fields that stand under the keys of the schema, in its order,
/// each with a value of the shape that the schema gives to its key.
pub open spec fn follows_schema(fields: Seq<Field>) -> bool {
    &&& fields.len() == schema().len()
    &&& forall|i: int|
        0 <= i < fields.len() ==> {
            &&& (#[trigger] fields[i]).key == schema()[i].key
            &&& fields[i].value matches Some(v) ==> v.kind() == schema()[i].kind
        }
}

/// True of fields whose strings hold no line break.
pub open spec fn plain_fields(fields: Seq<Field>) -> bool {
    forall|i: int|
        0 <= i < fields.len() ==> ((#[trigger] fields[i]).value matches Some(v) ==> plain_value(v))
}

/// True of a free-form group whose entries are plain.
pub open spec fn plain_group(group: Option<Seq<Entry>>) -> bool {
    group matches Some(entries) ==> forall|i: int|
        0 <= i < entries.len() ==> plain_entry(#[trigger] entries[i])
}

/// True of a service whose unit file is read back as it was written.
pub open spec fn plain_service(d: ServiceView) -> bool {
    &&& plain_group(d.install)
    &&& plain_group(d.unit)
    &&& plain_group(d.environment)
    &&& (d.service matches Some(fields) ==> follows_schema(fields) && plain_fields(fields))
}

/// True of a free-form group whose keys and values hold no line break.
pub open spec fn single_line_group(group: Option<Seq<Entry>>) -> bool {
    group matches Some(entries) ==> forall|i: int|
        0 <= i < entries.len() ==> free_of((#[trigger] entries[i]).key, '\n') && free_of(
            entries[i].value,
            '\n',
        )
}

/// True of a service none of whose strings holds a line break.
pub open spec fn single_line_service(d: ServiceView) -> bool {
    &&& single_line_group(d.install)
    &&& single_line_group(d.unit)
    &&& single_line_group(d.environment)
    &&& (d.service matches Some(fields) ==> follows_schema(fields) && plain_fields(fields))
}

/// The values that stand under `key` in a list of entries, in their order.
pub open spec fn values_under(entries: Seq<Entry>, key: Seq<char>) -> Seq<Seq<char>>
    decreases entries.len(),
{
    if entries.len() == 0 {
        Seq::empty()
    } else {
        let before = values_under(entries.drop_last(), key);
        if entries.last().key == key {
            before.push(entries.last().value)
        } else {
            before
        }
    }
}

/// The values that the text of a unit file gives for `key` in the section
/// `title`, in the order of its lines.
pub open spec fn values_in_text(text: Seq<char>, title: Seq<char>, key: Seq<char>) -> Seq<Seq<char>> {
    values_under(entries_titled(read_unit(text), title), key)
}

/// Every key of the schema can stand in front of an equals sign.
pub proof fn lemma_schema_keys_plain()
    ensures
        forall|i: int| 0 <= i < schema().len() ==> plain_key(#[trigger] schema()[i].key),
{
    reveal_strlit("Type");
    reveal_strlit("ExecStart");
    reveal_strlit("Restart");
    reveal_strlit("User");
    reveal_strlit("Group");
    reveal_strlit("WorkingDirectory");
    reveal_strlit("Nice");
    reveal_strlit("UMask");
    reveal_strlit("RestartSec");
    reveal_strlit("TimeoutStartSec");
    reveal_strlit("TimeoutStopSec");
    reveal_strlit("SuccessExitStatus");
    reveal_strlit("LimitNOFILE");
    reveal_strlit("LimitCORE");
    reveal_strlit("LimitAS");
    reveal_strlit("LimitCPU");
    reveal_strlit("LimitFSIZE");
    reveal_strlit("LimitNPROC");
    reveal_strlit("LimitSTACK");
    reveal_strlit("LimitRTPRIO");
    reveal_strlit("CPUSet");
    reveal_strlit("Delegate");
    reveal_strlit("ProtectHome");
    reveal_strlit("ProtectSystem");
    reveal_strlit("PrivateTmp");
    reveal_strlit("PrivateDevices");
    reveal_strlit("ProtectKernelModules");
    reveal_strlit("ProtectKernelTunables");
    reveal_strlit("ProtectControlGroups");
    reveal_strlit("MemoryDenyGroup");
    reveal_strlit("IOWeight");
    reveal_strlit("IOWeightDevice");
    reveal_strlit("BlockIOWeight");
    reveal_strlit("BlockIOWeightDevice");
    reveal_strlit("TasksMax");
    reveal_strlit("Slice");
    reveal_strlit("NUMANode");
    reveal_strlit("NUMAAffinity");
}

/// The properties of a service stand under the keys of the schema, in its
/// order, each with a value of its shape.
pub proof fn lemma_properties_follow_schema(p: ServiceProperties)
    ensures
        follows_schema(p@),
{
}

/// The execution properties of a description that was checked stand under
/// the keys of the schema, in its order, each with a value of its shape.
pub proof fn lemma_normalized_follows_schema(raw: DescriptorView)
    ensures
        normalized(raw).service matches Some(fields) ==> follows_schema(fields),
{
    reveal(field_value);
}

/// The texts of a plain value hold no line break.
pub proof fn lemma_value_texts_plain(v: TypedValue)
    requires
        plain_value(v),
    ensures
        forall|j: int| 0 <= j < value_texts(v).len() ==> free_of(#[trigger] value_texts(v)[j], '\n'),
{
    assert forall|j: int| 0 <= j < value_texts(v).len() implies free_of(
        #[trigger] value_texts(v)[j],
        '\n',
    ) by {
        match v {
            TypedValue::Integer(n) => {
                lemma_decimal_text(n);
            },
            TypedValue::IntegerList(items) => {
                lemma_decimal_text(items[j]);
            },
            _ => {},
        }
    }
}

/// Every entry of the `Service` section comes from one of the fields: it has
/// the key of the field and one of its texts as value.
pub proof fn lemma_service_entry_origin(fields: Seq<Field>, j: int) -> (place: (int, int))
    requires
        0 <= j < service_entries(fields).len(),
    ensures
        0 <= place.0 < fields.len(),
        0 <= place.1 < field_texts(fields[place.0]).len(),
        service_entries(fields)[j] == (Entry {
            key: fields[place.0].key,
            value: field_texts(fields[place.0])[place.1],
        }),
    decreases fields.len(),
{
    let before = service_entries(fields.drop_last());
    if j < before.len() {
        lemma_service_entry_origin(fields.drop_last(), j)
    } else {
        (fields.len() - 1, j - before.len())
    }
}

/// The entries that plain fields under the keys of the schema give are plain.
pub proof fn lemma_service_entries_plain(fields: Seq<Field>)
    requires
        follows_schema(fields),
        plain_fields(fields),
    ensures
        forall|j: int|
            0 <= j < service_entries(fields).len() ==> plain_entry(#[trigger] service_entries(fields)[j]),
{
    lemma_schema_keys_plain();
    assert forall|j: int| 0 <= j < service_entries(fields).len() implies plain_entry(
        #[trigger] service_entries(fields)[j],
    ) by {
        let (i, k) = lemma_service_entry_origin(fields, j);
        assert(plain_key(schema()[i].key));
        assert(fields[i].key == schema()[i].key);
        assert(fields[i].value is Some);
        lemma_value_texts_plain(fields[i].value->0);
    }
}

/// The sections of a plain service are plain.
pub proof fn lemma_unit_sections_plain(d: ServiceView)
    requires
        plain_service(d),
    ensures
        forall|i: int| 0 <= i < unit_sections(d).len() ==> plain_section(#[trigger] unit_sections(d)[i]),
{
    reveal_strlit("Install");
    reveal_strlit("Unit");
    reveal_strlit("Service");
    reveal_strlit("Environment");
    if d.service is Some {
        lemma_service_entries_plain(d.service->0);
    }
    let a = optional_section("Install"@, d.install);
    let b = optional_section("Unit"@, d.unit);
    let c = optional_section("Service"@, service_group(d.service));
    let e = optional_section("Environment"@, d.environment);
    assert forall|i: int| 0 <= i < a.len() implies plain_section(#[trigger] a[i]) by {}
    assert forall|i: int| 0 <= i < b.len() implies plain_section(#[trigger] b[i]) by {}
    assert forall|i: int| 0 <= i < c.len() implies plain_section(#[trigger] c[i]) by {}
    assert forall|i: int| 0 <= i < e.len() implies plain_section(#[trigger] e[i]) by {}
    assert forall|i: int| 0 <= i < unit_sections(d).len() implies plain_section(
        #[trigger] unit_sections(d)[i],
    ) by {
        let s = unit_sections(d)[i];
        if i < a.len() {
            assert(s == a[i]);
        } else if i < a.len() + b.len() {
            assert(s == b[i - a.len()]);
        } else if i < a.len() + b.len() + c.len() {
            assert(s == c[i - a.len() - b.len()]);
        } else {
            assert(s == e[i - a.len() - b.len() - c.len()]);
        }
    }
}

/// The unit file of a plain service is read back as the sections that it was
/// written from: one for each group that the service has, under its title,
/// with the entries of the group in their order.
pub proof fn lemma_unit_reads_back(d: ServiceView)
    requires
        plain_service(d),
    ensures
        read_unit(unit_text(d)) == unit_sections(d),
{
    lemma_unit_sections_plain(d);
    lemma_read_back(unit_sections(d));
}

/// The values under a key in two lists of entries, one after the other.
pub proof fn lemma_values_under_concat(a: Seq<Entry>, b: Seq<Entry>, key: Seq<char>)
    ensures
        values_under(a + b, key) == values_under(a, key) + values_under(b, key),
    decreases b.len(),
{
    if b.len() == 0 {
        assert(a + b =~= a);
        assert(values_under(a, key) + values_under(b, key) =~= values_under(a, key));
    } else {
        assert((a + b).drop_last() =~= a + b.drop_last());
        assert((a + b).last() == b.last());
        lemma_values_under_concat(a, b.drop_last(), key);
        assert(values_under(a + b, key) =~= values_under(a, key) + values_under(b, key));
    }
}

/// Entries that all stand under one key give their values under that key,
/// and nothing under another.
pub proof fn lemma_values_under_one_key(texts: Seq<Seq<char>>, own: Seq<char>, key: Seq<char>)
    ensures
        values_under(texts.map_values(|t: Seq<char>| Entry { key: own, value: t }), key) == if own
            == key {
            texts
        } else {
            Seq::empty()
        },
    decreases texts.len(),
{
    let entries = texts.map_values(|t: Seq<char>| Entry { key: own, value: t });
    if texts.len() == 0 {
        assert(values_under(entries, key) =~= texts);
    } else {
        lemma_values_under_one_key(texts.drop_last(), own, key);
        assert(entries.drop_last() =~= texts.drop_last().map_values(
            |t: Seq<char>| Entry { key: own, value: t },
        ));
        assert(entries.last() == Entry { key: own, value: texts.last() });
        if own == key {
            assert(texts.drop_last().push(texts.last()) =~= texts);
        }
    }
}

/// A key that no field has stands in front of no entry of the `Service` section.
pub proof fn lemma_values_under_foreign_key(fields: Seq<Field>, key: Seq<char>)
    requires
        forall|i: int| 0 <= i < fields.len() ==> (#[trigger] fields[i]).key != key,
    ensures
        values_under(service_entries(fields), key) == Seq::<Seq<char>>::empty(),
    decreases fields.len(),
{
    if fields.len() > 0 {
        let front = fields.drop_last();
        assert forall|i: int| 0 <= i < front.len() implies (#[trigger] front[i]).key != key by {
            assert(front[i] == fields[i]);
        }
        lemma_values_under_foreign_key(front, key);
        lemma_values_under_concat(service_entries(front), field_entries(fields.last()), key);
        lemma_values_under_one_key(field_texts(fields.last()), fields.last().key, key);
        assert(fields.last() == fields[fields.len() - 1]);
        assert(values_under(service_entries(fields), key) =~= Seq::<Seq<char>>::empty());
    }
}

/// Where no two fields share a key, the values under the key of a field are
/// the texts of that field, in their order.
pub proof fn lemma_values_under_field(fields: Seq<Field>, i: int)
    requires
        0 <= i < fields.len(),
        forall|a: int, b: int|
            0 <= a < b < fields.len() ==> (#[trigger] fields[a]).key != (#[trigger] fields[b]).key,
    ensures
        values_under(service_entries(fields), fields[i].key) == field_texts(fields[i]),
    decreases fields.len(),
{
    let key = fields[i].key;
    let front = fields.drop_last();
    let last = fields.last();
    assert(last == fields[fields.len() - 1]);
    lemma_values_under_concat(service_entries(front), field_entries(last), key);
    lemma_values_under_one_key(field_texts(last), last.key, key);
    if i == fields.len() - 1 {
        assert forall|j: int| 0 <= j < front.len() implies (#[trigger] front[j]).key != key by {
            assert(front[j] == fields[j]);
        }
        lemma_values_under_foreign_key(front, key);
        assert(values_under(service_entries(fields), key) =~= field_texts(fields[i]));
    } else {
        assert(front[i] == fields[i]);
        assert forall|a: int, b: int| 0 <= a < b < front.len() implies (#[trigger] front[a]).key != (
        #[trigger] front[b]).key by {
            assert(front[a] == fields[a]);
            assert(front[b] == fields[b]);
        }
        lemma_values_under_field(front, i);
        assert(fields[i].key != last.key);
        assert(values_under(service_entries(fields), key) =~= field_texts(fields[i]));
    }
}

/// The entries of a group, or none where the service does not have the group.
pub open spec fn group_entries(group: Option<Seq<Entry>>) -> Seq<Entry> {
    match group {
        Some(entries) => entries,
        None => Seq::empty(),
    }
}

/// Under each of the four titles the sections of a service hold the entries
/// of the group that the title stands for.
pub proof fn lemma_sections_by_title(d: ServiceView)
    ensures
        entries_titled(unit_sections(d), "Install"@) == group_entries(d.install),
        entries_titled(unit_sections(d), "Unit"@) == group_entries(d.unit),
        entries_titled(unit_sections(d), "Service"@) == group_entries(service_group(d.service)),
        entries_titled(unit_sections(d), "Environment"@) == group_entries(d.environment),
{
    reveal_strlit("Install");
    reveal_strlit("Unit");
    reveal_strlit("Service");
    reveal_strlit("Environment");
    assert("Install"@.len() == 7 && "Unit"@.len() == 4 && "Service"@.len() == 7
        && "Environment"@.len() == 11);
    assert("Install"@[0] == 'I' && "Service"@[0] == 'S');
    let sections = unit_sections(d);
    let a = optional_section("Install"@, d.install);
    let b = optional_section("Unit"@, d.unit);
    let c = optional_section("Service"@, service_group(d.service));
    let e = optional_section("Environment"@, d.environment);
    assert(sections == a + b + c + e);
    lemma_titled(sections, "Install"@, 0, d.install);
    lemma_titled(sections, "Unit"@, a.len() as int, d.unit);
    lemma_titled(sections, "Service"@, (a.len() + b.len()) as int, service_group(d.service));
    lemma_titled(sections, "Environment"@, (a.len() + b.len() + c.len()) as int, d.environment);
}

/// Where the sections with the title `title` are those of `group` at the
/// place `at`, the entries under the title are those of the group.
proof fn lemma_titled(sections: Seq<Section>, title: Seq<char>, at: int, group: Option<Seq<Entry>>)
    requires
        0 <= at,
        group is Some ==> at < sections.len() && sections[at] == (Section { title, entries: group->0 }),
        forall|j: int|
            0 <= j < sections.len() && (#[trigger] sections[j]).title == title ==> j == at
                && group is Some,
    ensures
        entries_titled(sections, title) == group_entries(group),
{
    if group is Some {
        assert(is_first_titled(sections, title, at));
        let c = choose|c: int| is_first_titled(sections, title, c);
        assert(c == at);
    } else {
        assert forall|i: int| !is_first_titled(sections, title, i) by {
            if is_first_titled(sections, title, i) {
                assert(sections[i].title == title);
            }
        }
    }
}

/// In the unit file of a plain service, the entries that are read under each
/// of the four titles are those of the group that the title stands for, in
/// their order, and none where the service does not have the group.
pub proof fn lemma_groups_in_text(d: ServiceView)
    requires
        plain_service(d),
    ensures
        entries_titled(read_unit(unit_text(d)), "Install"@) == group_entries(d.install),
        entries_titled(read_unit(unit_text(d)), "Unit"@) == group_entries(d.unit),
        entries_titled(read_unit(unit_text(d)), "Service"@) == group_entries(service_group(d.service)),
        entries_titled(read_unit(unit_text(d)), "Environment"@) == group_entries(d.environment),
{
    lemma_unit_reads_back(d);
    lemma_sections_by_title(d);
}

/// In the unit file of a service without line breaks, the entries that are
/// read under the title `Service` are those of its execution properties, in
/// schema order, and none where it has no such properties: whatever the other
/// groups hold, they add nothing to that section and take nothing from it.
pub proof fn lemma_service_section_in_text(d: ServiceView)
    requires
        single_line_service(d),
    ensures
        entries_titled(read_unit(unit_text(d)), "Service"@) == group_entries(service_group(d.service)),
{
    reveal_strlit("Install");
    reveal_strlit("Unit");
    reveal_strlit("Service");
    reveal_strlit("Environment");
    assert("Install"@.len() == 7 && "Unit"@.len() == 4 && "Service"@.len() == 7
        && "Environment"@.len() == 11);
    assert("Install"@[0] == 'I' && "Service"@[0] == 'S');
    let sections = unit_sections(d);
    let a = optional_section("Install"@, d.install);
    let b = optional_section("Unit"@, d.unit);
    let c = optional_section("Service"@, service_group(d.service));
    let e = optional_section("Environment"@, d.environment);
    if d.service is Some {
        lemma_service_entries_plain(d.service->0);
    }
    assert forall|i: int| 0 <= i < sections.len() implies single_line_section(
        #[trigger] sections[i],
    ) by {
        let s = sections[i];
        if i < a.len() {
            assert(s == a[i]);
        } else if i < a.len() + b.len() {
            assert(s == b[i - a.len()]);
        } else if i < a.len() + b.len() + c.len() {
            assert(s == c[i - a.len() - b.len()]);
            assert forall|j: int| 0 <= j < s.entries.len() implies free_of(
                (#[trigger] s.entries[j]).key,
                '\n',
            ) && free_of(s.entries[j].value, '\n') by {
                assert(plain_entry(service_entries(d.service->0)[j]));
            }
        } else {
            assert(s == e[i - a.len() - b.len() - c.len()]);
        }
    }
    lemma_sections_text_is_lines_text(sections);
    lemma_unit_lines_single(sections);
    lemma_read_as_read(unit_lines(sections));
    let read = read_unit(unit_text(d));
    assert(read == read_sections(as_read(unit_lines(sections))));
    if d.service is Some {
        let k = (a.len() + b.len()) as int;
        assert(sections[k] == c[0]);
        assert forall|q: int| 0 <= q < k implies (#[trigger] sections[q]).title != "Service"@ by {
            if q < a.len() {
                assert(sections[q] == a[q]);
            } else {
                assert(sections[q] == b[q - a.len()]);
            }
        }
        lemma_section_read(sections, k);
    } else {
        assert forall|q: int| 0 <= q < sections.len() implies (#[trigger] sections[q]).title
            != "Service"@ by {
            if q < a.len() {
                assert(sections[q] == a[q]);
            } else if q < a.len() + b.len() {
                assert(sections[q] == b[q - a.len()]);
            } else {
                assert(sections[q] == e[q - a.len() - b.len()]);
            }
        }
        lemma_title_not_read(sections, "Service"@);
        assert forall|i: int| !is_first_titled(read, "Service"@, i) by {
            if is_first_titled(read, "Service"@, i) {
                assert(read[i].title == "Service"@);
            }
        }
    }
}

/// In the unit file of a service without line breaks, the lines that the
/// `Service` section holds under a key of the schema are the texts of that
/// field, in their order: none for an absent field, one for a string or an
/// integer, one for each element of a list.
pub proof fn lemma_field_in_text(d: ServiceView, i: int)
    requires
        single_line_service(d),
        d.service is Some,
        0 <= i < schema().len(),
    ensures
        values_in_text(unit_text(d), "Service"@, schema()[i].key) == field_texts(d.service->0[i]),
{
    let fields = d.service->0;
    lemma_service_section_in_text(d);
    lemma_schema_keys_distinct();
    assert forall|a: int, b: int| 0 <= a < b < fields.len() implies (#[trigger] fields[a]).key != (
    #[trigger] fields[b]).key by {
        assert(schema()[a].key != schema()[b].key);
    }
    lemma_values_under_field(fields, i);
}

/// A field that the service does not have stands in front of no line of the
/// `Service` section of its unit file.
pub proof fn lemma_absent_field_has_no_line(d: ServiceView, i: int)
    requires
        single_line_service(d),
        0 <= i < schema().len(),
        d.service matches Some(fields) ==> fields[i].value is None,
    ensures
        values_in_text(unit_text(d), "Service"@, schema()[i].key) == Seq::<Seq<char>>::empty(),
{
    lemma_service_section_in_text(d);
    if d.service is Some {
        lemma_field_in_text(d, i);
    }
}

/// A string field that the service has stands in front of exactly one line
/// of the `Service` section of its unit file, and that line holds the string.
pub proof fn lemma_text_field_has_one_line(d: ServiceView, i: int, s: Seq<char>)
    requires
        single_line_service(d),
        d.service is Some,
        0 <= i < schema().len(),
        d.service->0[i].value == Some(TypedValue::Text(s)),
    ensures
        values_in_text(unit_text(d), "Service"@, schema()[i].key) == seq![s],
{
    lemma_field_in_text(d, i);
}

/// An integer field that the service has stands in front of exactly one line
/// of the `Service` section of its unit file, and that line holds the number
/// in decimal notation.
pub proof fn lemma_integer_field_has_one_line(d: ServiceView, i: int, n: int)
    requires
        single_line_service(d),
        d.service is Some,
        0 <= i < schema().len(),
        d.service->0[i].value == Some(TypedValue::Integer(n)),
    ensures
        values_in_text(unit_text(d), "Service"@, schema()[i].key) == seq![decimal_text(n)],
{
    lemma_field_in_text(d, i);
}

/// A key that the schema does not hold stands in front of no line of the
/// `Service` section of a unit file.
pub proof fn lemma_foreign_key_has_no_line(d: ServiceView, key: Seq<char>)
    requires
        single_line_service(d),
        forall|i: int| 0 <= i < schema().len() ==> (#[trigger] schema()[i]).key != key,
    ensures
        values_in_text(unit_text(d), "Service"@, key) == Seq::<Seq<char>>::empty(),
{
    lemma_service_section_in_text(d);
    if d.service is Some {
        let fields = d.service->0;
        assert forall|i: int| 0 <= i < fields.len() implies (#[trigger] fields[i]).key != key by {
            assert(schema()[i].key != key);
        }
        lemma_values_under_foreign_key(fields, key);
    }
}

/// A key of the schema that a description does not give in its `service`
/// group stands in front of no line of the `Service` section of the unit
/// file.
pub proof fn lemma_key_not_given_has_no_line(raw: DescriptorView, i: int)
    requires
        single_line_service(normalized(raw)),
        0 <= i < schema().len(),
        raw.service matches Some(group) ==> lookup(group, schema()[i].key) is None,
    ensures
        values_in_text(unit_text(normalized(raw)), "Service"@, schema()[i].key) == Seq::<
            Seq<char>,
        >::empty(),
{
    reveal(field_value);
    lemma_absent_field_has_no_line(normalized(raw), i);
}

/// A key of the schema that a valid description gives in its `service` group
/// stands in front of the lines that its value is written as, and of no
/// others.
pub proof fn lemma_key_given_has_its_lines(raw: DescriptorView, i: int)
    requires
        descriptor_fault(raw) is None,
        single_line_service(normalized(raw)),
        0 <= i < schema().len(),
        raw.service is Some,
        lookup(raw.service->0, schema()[i].key) is Some,
    ensures
        decode(schema()[i].kind, lookup(raw.service->0, schema()[i].key)->0) is Some,
        values_in_text(unit_text(normalized(raw)), "Service"@, schema()[i].key) == value_texts(
            decode(schema()[i].kind, lookup(raw.service->0, schema()[i].key)->0)->0,
        ),
{
    reveal(field_value);
    let group = raw.service->0;
    let key = schema()[i].key;
    lemma_field_in_text(normalized(raw), i);
    lemma_no_fault(group, false);
    let at = choose|at: int| is_first_with_key(group, key, at);
    assert(!entry_fault(group, false, at));
    lemma_schema_kind_at(i);
}

/// The entries of all sections, in the order of the sections.
pub open spec fn all_entries(sections: Seq<Section>) -> Seq<Entry>
    decreases sections.len(),
{
    if sections.len() == 0 {
        Seq::empty()
    } else {
        all_entries(sections.drop_last()) + sections.last().entries
    }
}

/// The values that the text of a unit file gives for `key`, whatever the
/// section, in the order of its lines.
pub open spec fn values_anywhere(text: Seq<char>, key: Seq<char>) -> Seq<Seq<char>> {
    values_under(all_entries(read_unit(text)), key)
}

/// Where a service without line breaks has execution properties and no
/// other group, the lines that its whole unit file holds under a key of the
/// schema are the texts of that field: none for an absent field, and exactly
/// one, with the value, for a string or an integer.
pub proof fn lemma_schema_only_service(d: ServiceView, i: int)
    requires
        single_line_service(d),
        d.install is None && d.unit is None && d.environment is None,
        d.service is Some,
        0 <= i < schema().len(),
    ensures
        values_anywhere(unit_text(d), schema()[i].key) == field_texts(d.service->0[i]),
{
    let own = Section { title: "Service"@, entries: service_entries(d.service->0) };
    assert(plain_service(d));
    lemma_field_in_text(d, i);
    lemma_unit_reads_back(d);
    lemma_service_section_in_text(d);
    assert(unit_sections(d) =~= seq![own]);
    assert(seq![own].drop_last() =~= Seq::<Section>::empty());
    assert(all_entries(seq![own].drop_last()) =~= Seq::<Entry>::empty());
    assert(all_entries(seq![own]) =~= own.entries);
}

/// Two services with the same name and the same settings have the same unit
/// file, under the same name.
pub proof fn lemma_unit_is_decided_by_service(a: MyService, b: MyService)
    requires
        a@ == b@,
    ensures
        unit_text(a@) == unit_text(b@),
        unit_file_name(a@.name) == unit_file_name(b@.name),
{
}

/// Two descriptions with the same name and the same entries are accepted or
/// refused alike, for the same key, and where they are accepted they have the
/// same unit file.
pub proof fn lemma_unit_is_decided_by_description(a: RawDescriptor, b: RawDescriptor)
    requires
        a@ == b@,
    ensures
        descriptor_fault(a@) == descriptor_fault(b@),
        unit_text(normalized(a@)) == unit_text(normalized(b@)),
        unit_file_name(a@.name) == unit_file_name(b@.name),
{
}

} // verus!
