//! A service description as it comes out of an input file, before its values
//! have been held against the schema, and the step that checks it.

use vstd::prelude::*;
use crate::error::{DeployError, ErrorView};
use crate::service_struct::{
    entries, group_view, integer_field, integer_list_field, integers, lemma_schema_keys_distinct,
    rows_view, schema, schema_kind, schema_table, text_field, text_list_field, texts, Entry, Field,
    FieldKind, MyService, SchemaRow, ServiceConfig, ServiceProperties, ServiceView, Setting, TypedValue,
};
use crate::text::{copy_text, same_text};

verus! {

/// An element of a list in an input file.
#[derive(Debug, Clone, PartialEq, Eq)]
pub enum RawScalar {
    Text(String),
    Integer(i64),
    /// Anything that is neither a string nor an integer.
    Other,
}

/// A value in an input file.
#[derive(Debug, Clone, PartialEq, Eq)]
pub enum RawValue {
    Text(String),
    Integer(i64),
    List(Vec<RawScalar>),
    /// Anything that is neither a string, an integer nor a list.
    Other,
}

/// A key of a group with the value given for it.
#[derive(Debug, Clone, PartialEq, Eq)]
pub struct RawEntry {
    pub key: String,
    pub value: RawValue,
}

/// One service as an input file describes it. Each group holds its entries in
/// the order of the file.
#[derive(Debug, Clone, PartialEq, Eq)]
pub struct RawDescriptor {
    pub name: String,
    pub install: Option<Vec<RawEntry>>,
    pub unit: Option<Vec<RawEntry>>,
    pub service: Option<Vec<RawEntry>>,
    pub environment: Option<Vec<RawEntry>>,
}

/// An element of a list as a mathematical value.
pub enum ScalarView {
    Text(Seq<char>),
    Integer(int),
    Other,
}

/// A value of an input file as a mathematical value.
pub enum ValueView {
    Text(Seq<char>),
    Integer(int),
    List(Seq<ScalarView>),
    Other,
}

/// An entry of a group as a mathematical value.
pub struct RawEntryView {
    pub key: Seq<char>,
    pub value: ValueView,
}

/// A description as a mathematical value.
pub struct DescriptorView {
    pub name: Seq<char>,
    pub install: Option<Seq<RawEntryView>>,
    pub unit: Option<Seq<RawEntryView>>,
    pub service: Option<Seq<RawEntryView>>,
    pub environment: Option<Seq<RawEntryView>>,
}

impl View for RawScalar {
    type V = ScalarView;

    open spec fn view(&self) -> ScalarView {
        match self {
            RawScalar::Text(s) => ScalarView::Text(s@),
            RawScalar::Integer(n) => ScalarView::Integer(*n as int),
            RawScalar::Other => ScalarView::Other,
        }
    }
}

/// The elements of a list as mathematical values.
pub open spec fn scalars(items: Seq<RawScalar>) -> Seq<ScalarView> {
    items.map_values(|s: RawScalar| s@)
}

impl View for RawValue {
    type V = ValueView;

    open spec fn view(&self) -> ValueView {
        match self {
            RawValue::Text(s) => ValueView::Text(s@),
            RawValue::Integer(n) => ValueView::Integer(*n as int),
            RawValue::List(items) => ValueView::List(scalars(items@)),
            RawValue::Other => ValueView::Other,
        }
    }
}

impl View for RawEntry {
    type V = RawEntryView;

    open spec fn view(&self) -> RawEntryView {
        RawEntryView { key: self.key@, value: self.value@ }
    }
}

/// The entries of a group as mathematical values.
pub open spec fn raw_entries(group: Seq<RawEntry>) -> Seq<RawEntryView> {
    group.map_values(|e: RawEntry| e@)
}

/// An optional group as a mathematical value.
pub open spec fn raw_group(group: Option<Vec<RawEntry>>) -> Option<Seq<RawEntryView>> {
    match group {
        Some(g) => Some(raw_entries(g@)),
        None => None,
    }
}

impl View for RawDescriptor {
    type V = DescriptorView;

    open spec fn view(&self) -> DescriptorView {
        DescriptorView {
            name: self.name@,
            install: raw_group(self.install),
            unit: raw_group(self.unit),
            service: raw_group(self.service),
            environment: raw_group(self.environment),
        }
    }
}

/// Tells whether `n` is in the range of the schema's integers.
pub open spec fn fits_i32(n: int) -> bool {
    i32::MIN <= n <= i32::MAX
}

/// True when every element is a string.
pub open spec fn all_text(items: Seq<ScalarView>) -> bool {
    forall|i: int| 0 <= i < items.len() ==> #[trigger] items[i] is Text
}

/// True when every element is an integer of the schema's range.
pub open spec fn all_integer(items: Seq<ScalarView>) -> bool {
    forall|i: int|
        0 <= i < items.len() ==> (#[trigger] items[i] matches ScalarView::Integer(n) && fits_i32(n))
}

/// The strings of a list of strings.
pub open spec fn scalar_texts(items: Seq<ScalarView>) -> Seq<Seq<char>> {
    items.map_values(|s: ScalarView| s->Text_0)
}

/// The integers of a list of integers.
pub open spec fn scalar_integers(items: Seq<ScalarView>) -> Seq<int> {
    items.map_values(|s: ScalarView| s->Integer_0)
}

/// The value that `v` is for a field of shape `kind`, or `None` where `v` has
/// another shape. Nothing is converted: a number is no string, a single
/// value is no list, and an integer outside the range of `i32` is no integer
/// of the schema.
pub open spec fn decode(kind: FieldKind, v: ValueView) -> Option<TypedValue> {
    match kind {
        FieldKind::Text => match v {
            ValueView::Text(s) => Some(TypedValue::Text(s)),
            _ => None,
        },
        FieldKind::Integer => match v {
            ValueView::Integer(n) => if fits_i32(n) {
                Some(TypedValue::Integer(n))
            } else {
                None
            },
            _ => None,
        },
        FieldKind::TextList => match v {
            ValueView::List(items) => if all_text(items) {
                Some(TypedValue::TextList(scalar_texts(items)))
            } else {
                None
            },
            _ => None,
        },
        FieldKind::IntegerList => match v {
            ValueView::List(items) => if all_integer(items) {
                Some(TypedValue::IntegerList(scalar_integers(items)))
            } else {
                None
            },
            _ => None,
        },
    }
}

/// The shape asked of the values of `key`: in a free-form group every key
/// takes a string; in the group of execution properties the schema decides,
/// and a key that it does not know is asked nothing.
pub open spec fn expected_kind(free: bool, key: Seq<char>) -> Option<FieldKind> {
    if free {
        Some(FieldKind::Text)
    } else {
        schema_kind(key)
    }
}

/// True when an entry before the `i`-th has the key of the `i`-th.
pub open spec fn repeats_earlier(group: Seq<RawEntryView>, i: int) -> bool {
    exists|j: int| 0 <= j < i && (#[trigger] group[j]).key == group[i].key
}

/// True when the `i`-th entry of the group cannot be accepted: its key is
/// asked a shape and its value has another one, or the key was given before.
pub open spec fn entry_fault(group: Seq<RawEntryView>, free: bool, i: int) -> bool {
    match expected_kind(free, group[i].key) {
        None => false,
        Some(kind) => decode(kind, group[i].value) is None || repeats_earlier(group, i),
    }
}

/// True when the `i`-th entry is the first of the group that cannot be accepted.
pub open spec fn is_first_fault(group: Seq<RawEntryView>, free: bool, i: int) -> bool {
    &&& 0 <= i < group.len()
    &&& entry_fault(group, free, i)
    &&& forall|j: int| 0 <= j < i ==> !entry_fault(group, free, j)
}

/// The key of the first entry of the group that cannot be accepted, if there is one.
pub open spec fn group_fault(group: Option<Seq<RawEntryView>>, free: bool) -> Option<Seq<char>> {
    match group {
        None => None,
        Some(g) => if exists|i: int| is_first_fault(g, free, i) {
            Some(g[choose|i: int| is_first_fault(g, free, i)].key)
        } else {
            None
        },
    }
}

/// The key that makes the description invalid, if there is one: that of the
/// first entry that cannot be accepted, the groups taken in the order
/// install, unit, service, environment.
pub open spec fn descriptor_fault(d: DescriptorView) -> Option<Seq<char>> {
    if group_fault(d.install, true) is Some {
        group_fault(d.install, true)
    } else if group_fault(d.unit, true) is Some {
        group_fault(d.unit, true)
    } else if group_fault(d.service, false) is Some {
        group_fault(d.service, false)
    } else {
        group_fault(d.environment, true)
    }
}

/// True when the `i`-th entry is the first of the group with the key `key`.
pub open spec fn is_first_with_key(group: Seq<RawEntryView>, key: Seq<char>, i: int) -> bool {
    &&& 0 <= i < group.len()
    &&& group[i].key == key
    &&& forall|j: int| 0 <= j < i ==> (#[trigger] group[j]).key != key
}

/// The value that the group gives for `key`, if it gives one.
pub open spec fn lookup(group: Seq<RawEntryView>, key: Seq<char>) -> Option<ValueView> {
    if exists|i: int| is_first_with_key(group, key, i) {
        Some(group[choose|i: int| is_first_with_key(group, key, i)].value)
    } else {
        None
    }
}

/// What a field of the given key and shape holds according to the group:
/// nothing where the key is not given.
#[verifier::opaque]
pub open spec fn field_value(group: Seq<RawEntryView>, key: Seq<char>, kind: FieldKind) -> Option<
    TypedValue,
> {
    match lookup(group, key) {
        None => None,
        Some(v) => decode(kind, v),
    }
}

/// The schema's fields, each with what the group holds for it.
pub open spec fn service_fields(group: Seq<RawEntryView>) -> Seq<Field> {
    Seq::new(
        schema().len(),
        |i: int| Field { key: schema()[i].key, value: field_value(group, schema()[i].key, schema()[i].kind) },
    )
}

/// The entries of a free-form group whose values are all strings.
pub open spec fn free_entries(group: Seq<RawEntryView>) -> Seq<Entry> {
    group.map_values(|e: RawEntryView| Entry { key: e.key, value: e.value->Text_0 })
}

/// The service that a valid description stands for.
pub open spec fn normalized(d: DescriptorView) -> ServiceView {
    ServiceView {
        name: d.name,
        install: match d.install {
            Some(g) => Some(free_entries(g)),
            None => None,
        },
        unit: match d.unit {
            Some(g) => Some(free_entries(g)),
            None => None,
        },
        service: match d.service {
            Some(g) => Some(service_fields(g)),
            None => None,
        },
        environment: match d.environment {
            Some(g) => Some(free_entries(g)),
            None => None,
        },
    }
}

/// Among the entries of a group only one is the first that cannot be accepted.
pub proof fn lemma_first_fault_unique(group: Seq<RawEntryView>, free: bool, i: int, k: int)
    requires
        is_first_fault(group, free, i),
        is_first_fault(group, free, k),
    ensures
        i == k,
{
    if i < k {
        assert(!entry_fault(group, free, i));
    } else if k < i {
        assert(!entry_fault(group, free, k));
    }
}

/// Among the entries of a group only one is the first with a given key.
pub proof fn lemma_first_with_key_unique(group: Seq<RawEntryView>, key: Seq<char>, i: int, k: int)
    requires
        is_first_with_key(group, key, i),
        is_first_with_key(group, key, k),
    ensures
        i == k,
{
    if i < k {
        assert(group[i].key != key);
    } else if k < i {
        assert(group[k].key != key);
    }
}

/// The shape that the schema gives to `key`.
fn kind_of(table: &Vec<SchemaRow>, key: &String) -> (kind: Option<FieldKind>)
    requires
        rows_view(table@) == schema(),
    ensures
        kind == schema_kind(key@),
{
    let mut i: usize = 0;
    while i < table.len()
        invariant
            i <= table.len(),
            rows_view(table@) == schema(),
            forall|j: int| 0 <= j < i ==> schema()[j].key != key@,
        decreases table.len() - i,
    {
        assert(rows_view(table@)[i as int] == table@[i as int]@);
        if same_text(key, table[i].key) {
            proof {
                lemma_schema_keys_distinct();
                let c = choose|c: int| 0 <= c < schema().len() && schema()[c].key == key@;
                assert(schema()[c].key == schema()[i as int].key);
            }
            return Some(table[i].kind);
        }
        i += 1;
    }
    None
}

/// Tells whether every element of `items` is a string.
fn items_all_text(items: &Vec<RawScalar>) -> (all: bool)
    ensures
        all == all_text(scalars(items@)),
{
    let mut i: usize = 0;
    while i < items.len()
        invariant
            i <= items.len(),
            forall|j: int| 0 <= j < i ==> #[trigger] scalars(items@)[j] is Text,
        decreases items.len() - i,
    {
        match &items[i] {
            RawScalar::Text(_) => {},
            _ => {
                assert(!(scalars(items@)[i as int] is Text));
                return false;
            },
        }
        i += 1;
    }
    true
}

/// Tells whether every element of `items` is an integer of the schema's range.
fn items_all_integer(items: &Vec<RawScalar>) -> (all: bool)
    ensures
        all == all_integer(scalars(items@)),
{
    let mut i: usize = 0;
    while i < items.len()
        invariant
            i <= items.len(),
            forall|j: int|
                0 <= j < i ==> (#[trigger] scalars(items@)[j] matches ScalarView::Integer(n) && fits_i32(
                    n,
                )),
        decreases items.len() - i,
    {
        let fits = match &items[i] {
            RawScalar::Integer(n) => -2147483648 <= *n && *n <= 2147483647,
            _ => false,
        };
        if !fits {
            assert(!(scalars(items@)[i as int] matches ScalarView::Integer(n) && fits_i32(n)));
            return false;
        }
        i += 1;
    }
    true
}

/// Tells whether `value` has the shape `kind`.
fn has_kind(kind: FieldKind, value: &RawValue) -> (ok: bool)
    ensures
        ok == (decode(kind, value@) is Some),
{
    match kind {
        FieldKind::Text => match value {
            RawValue::Text(_) => true,
            _ => false,
        },
        FieldKind::Integer => match value {
            RawValue::Integer(n) => -2147483648 <= *n && *n <= 2147483647,
            _ => false,
        },
        FieldKind::TextList => match value {
            RawValue::List(items) => items_all_text(items),
            _ => false,
        },
        FieldKind::IntegerList => match value {
            RawValue::List(items) => items_all_integer(items),
            _ => false,
        },
    }
}

/// Tells whether an entry before the `i`-th has the key of the `i`-th.
fn key_given_before(group: &Vec<RawEntry>, i: usize) -> (given: bool)
    requires
        i < group.len(),
    ensures
        given == repeats_earlier(raw_entries(group@), i as int),
{
    let mut j: usize = 0;
    while j < i
        invariant
            j <= i,
            i < group.len(),
            forall|k: int| 0 <= k < j ==> (#[trigger] raw_entries(group@)[k]).key != raw_entries(group@)[i as int].key,
        decreases i - j,
    {
        if group[j].key == group[i].key {
            assert(raw_entries(group@)[j as int].key == raw_entries(group@)[i as int].key);
            return true;
        }
        j += 1;
    }
    false
}

/// The place of the first entry of the group that cannot be accepted.
fn first_fault(table: &Vec<SchemaRow>, group: &Vec<RawEntry>, free: bool) -> (place: Option<usize>)
    requires
        rows_view(table@) == schema(),
    ensures
        match place {
            Some(i) => is_first_fault(raw_entries(group@), free, i as int),
            None => forall|i: int| 0 <= i < group.len() ==> !entry_fault(raw_entries(group@), free, i),
        },
{
    let mut i: usize = 0;
    while i < group.len()
        invariant
            i <= group.len(),
            rows_view(table@) == schema(),
            forall|j: int| 0 <= j < i ==> !entry_fault(raw_entries(group@), free, j),
        decreases group.len() - i,
    {
        let asked = if free {
            Some(FieldKind::Text)
        } else {
            kind_of(table, &group[i].key)
        };
        assert(asked == expected_kind(free, raw_entries(group@)[i as int].key));
        if let Some(kind) = asked {
            if !has_kind(kind, &group[i].value) || key_given_before(group, i) {
                return Some(i);
            }
        }
        i += 1;
    }
    None
}

/// The key of the first entry of an optional group that cannot be accepted.
fn fault_of_group(table: &Vec<SchemaRow>, group: &Option<Vec<RawEntry>>, free: bool) -> (key: Option<
    String,
>)
    requires
        rows_view(table@) == schema(),
    ensures
        match key {
            Some(k) => group_fault(raw_group(*group), free) == Some(k@),
            None => group_fault(raw_group(*group), free) is None,
        },
{
    match group {
        None => None,
        Some(g) => match first_fault(table, g, free) {
            Some(i) => {
                proof {
                    let view = raw_entries(g@);
                    let c = choose|c: int| is_first_fault(view, free, c);
                    lemma_first_fault_unique(view, free, i as int, c);
                }
                Some(copy_text(&g[i].key))
            },
            None => None,
        },
    }
}

/// The settings of a free-form group whose values are all strings.
fn settings_of(group: &Vec<RawEntry>) -> (settings: Vec<Setting>)
    requires
        forall|i: int| 0 <= i < group.len() ==> (#[trigger] raw_entries(group@)[i]).value is Text,
    ensures
        entries(settings@) == free_entries(raw_entries(group@)),
{
    let mut settings: Vec<Setting> = Vec::new();
    let mut i: usize = 0;
    while i < group.len()
        invariant
            i <= group.len(),
            settings.len() == i,
            forall|j: int| 0 <= j < group.len() ==> (#[trigger] raw_entries(group@)[j]).value is Text,
            forall|j: int|
                0 <= j < i ==> (#[trigger] settings@[j])@ == free_entries(raw_entries(group@))[j],
        decreases group.len() - i,
    {
        assert(raw_entries(group@)[i as int].value is Text);
        match &group[i].value {
            RawValue::Text(s) => {
                settings.push(Setting { key: copy_text(&group[i].key), value: copy_text(s) });
            },
            _ => {},
        }
        i += 1;
    }
    assert(entries(settings@) =~= free_entries(raw_entries(group@)));
    settings
}

/// The settings of an optional free-form group.
fn settings_of_group(group: &Option<Vec<RawEntry>>) -> (settings: Option<Vec<Setting>>)
    requires
        group_fault(raw_group(*group), true) is None,
    ensures
        group_view(settings) == match raw_group(*group) {
            Some(g) => Some(free_entries(g)),
            None => None,
        },
{
    match group {
        None => None,
        Some(g) => {
            proof {
                lemma_free_group_all_text(raw_entries(g@));
            }
            Some(settings_of(g))
        },
    }
}

/// In a free-form group without an entry that cannot be accepted, every value
/// is a string.
proof fn lemma_free_group_all_text(group: Seq<RawEntryView>)
    requires
        group_fault(Some(group), true) is None,
    ensures
        forall|i: int| 0 <= i < group.len() ==> (#[trigger] group[i]).value is Text,
{
    lemma_no_fault(group, true);
    assert forall|i: int| 0 <= i < group.len() implies (#[trigger] group[i]).value is Text by {
        assert(!entry_fault(group, true, i));
    }
}

/// A group without a first entry that cannot be accepted has no such entry at all.
pub proof fn lemma_no_fault(group: Seq<RawEntryView>, free: bool)
    requires
        group_fault(Some(group), free) is None,
    ensures
        forall|i: int| 0 <= i < group.len() ==> !entry_fault(group, free, i),
{
    assert forall|i: int| 0 <= i < group.len() implies !entry_fault(group, free, i) by {
        if entry_fault(group, free, i) {
            lemma_least_fault(group, free, i);
        }
    }
}

/// Where an entry cannot be accepted, one entry is the first of that kind.
proof fn lemma_least_fault(group: Seq<RawEntryView>, free: bool, i: int)
    requires
        0 <= i < group.len(),
        entry_fault(group, free, i),
    ensures
        exists|k: int| is_first_fault(group, free, k),
    decreases i,
{
    if forall|j: int| 0 <= j < i ==> !entry_fault(group, free, j) {
        assert(is_first_fault(group, free, i));
    } else {
        let j = choose|j: int| 0 <= j < i && entry_fault(group, free, j);
        lemma_least_fault(group, free, j);
    }
}

/// The place of the first entry of the group with the key `key`.
fn find(group: &Vec<RawEntry>, key: &str) -> (place: Option<usize>)
    ensures
        match place {
            Some(i) => is_first_with_key(raw_entries(group@), key@, i as int),
            None => lookup(raw_entries(group@), key@) is None,
        },
{
    let mut i: usize = 0;
    while i < group.len()
        invariant
            i <= group.len(),
            forall|j: int| 0 <= j < i ==> (#[trigger] raw_entries(group@)[j]).key != key@,
        decreases group.len() - i,
    {
        if same_text(&group[i].key, key) {
            return Some(i);
        }
        i += 1;
    }
    None
}

/// The entry that the group holds for `key`.
fn entry_for<'a>(group: &'a Vec<RawEntry>, key: &str) -> (found: Option<&'a RawValue>)
    ensures
        match found {
            Some(v) => lookup(raw_entries(group@), key@) == Some(v@),
            None => lookup(raw_entries(group@), key@) is None,
        },
{
    match find(group, key) {
        Some(i) => {
            proof {
                let view = raw_entries(group@);
                let c = choose|c: int| is_first_with_key(view, key@, c);
                lemma_first_with_key_unique(view, key@, i as int, c);
            }
            Some(&group[i].value)
        },
        None => None,
    }
}

/// What the group holds for the string field `key`.
fn text_value(group: &Vec<RawEntry>, key: &str) -> (value: Option<String>)
    ensures
        text_field(key@, value).value == field_value(
            raw_entries(group@),
            key@,
            FieldKind::Text,
        ),
{
    reveal(field_value);
    match entry_for(group, key) {
        Some(RawValue::Text(s)) => Some(copy_text(s)),
        _ => None,
    }
}

/// What the group holds for the integer field `key`.
fn integer_value(group: &Vec<RawEntry>, key: &str) -> (value: Option<i32>)
    ensures
        integer_field(key@, value).value == field_value(
            raw_entries(group@),
            key@,
            FieldKind::Integer,
        ),
{
    reveal(field_value);
    match entry_for(group, key) {
        Some(RawValue::Integer(n)) => {
            if -2147483648 <= *n && *n <= 2147483647 {
                Some(*n as i32)
            } else {
                None
            }
        },
        _ => None,
    }
}

/// The strings of a list, if all its elements are strings.
fn text_items(items: &Vec<RawScalar>) -> (list: Option<Vec<String>>)
    ensures
        match list {
            Some(l) => all_text(scalars(items@)) && texts(l@) == scalar_texts(scalars(items@)),
            None => !all_text(scalars(items@)),
        },
{
    let mut list: Vec<String> = Vec::new();
    let mut i: usize = 0;
    while i < items.len()
        invariant
            i <= items.len(),
            list.len() == i,
            forall|j: int| 0 <= j < i ==> #[trigger] scalars(items@)[j] is Text,
            forall|j: int| 0 <= j < i ==> (#[trigger] list@[j])@ == scalars(items@)[j]->Text_0,
        decreases items.len() - i,
    {
        match &items[i] {
            RawScalar::Text(s) => {
                list.push(copy_text(s));
            },
            _ => {
                assert(!(scalars(items@)[i as int] is Text));
                return None;
            },
        }
        i += 1;
    }
    assert(texts(list@) =~= scalar_texts(scalars(items@)));
    Some(list)
}

/// The integers of a list, if all its elements are integers of the schema's range.
fn integer_items(items: &Vec<RawScalar>) -> (list: Option<Vec<i32>>)
    ensures
        match list {
            Some(l) => all_integer(scalars(items@)) && integers(l@) == scalar_integers(scalars(items@)),
            None => !all_integer(scalars(items@)),
        },
{
    let mut list: Vec<i32> = Vec::new();
    let mut i: usize = 0;
    while i < items.len()
        invariant
            i <= items.len(),
            list.len() == i,
            forall|j: int|
                0 <= j < i ==> (#[trigger] scalars(items@)[j] matches ScalarView::Integer(n) && fits_i32(
                    n,
                )),
            forall|j: int| 0 <= j < i ==> (#[trigger] list@[j]) as int == scalars(items@)[j]->Integer_0,
        decreases items.len() - i,
    {
        let number: Option<i32> = match &items[i] {
            RawScalar::Integer(n) => if -2147483648 <= *n && *n <= 2147483647 {
                Some(*n as i32)
            } else {
                None
            },
            _ => None,
        };
        match number {
            Some(n) => {
                list.push(n);
            },
            None => {
                assert(!(scalars(items@)[i as int] matches ScalarView::Integer(n) && fits_i32(n)));
                return None;
            },
        }
        i += 1;
    }
    assert(integers(list@) =~= scalar_integers(scalars(items@)));
    Some(list)
}

/// What the group holds for the field `key`, a list of strings.
fn text_list_value(group: &Vec<RawEntry>, key: &str) -> (value: Option<Vec<String>>)
    ensures
        text_list_field(key@, value).value == field_value(
            raw_entries(group@),
            key@,
            FieldKind::TextList,
        ),
{
    reveal(field_value);
    match entry_for(group, key) {
        Some(RawValue::List(items)) => text_items(items),
        _ => None,
    }
}

/// What the group holds for the field `key`, a list of integers.
fn integer_list_value(group: &Vec<RawEntry>, key: &str) -> (value: Option<Vec<i32>>)
    ensures
        integer_list_field(key@, value).value == field_value(
            raw_entries(group@),
            key@,
            FieldKind::IntegerList,
        ),
{
    reveal(field_value);
    match entry_for(group, key) {
        Some(RawValue::List(items)) => integer_items(items),
        _ => None,
    }
}

/// The execution properties that the group gives: each field of the schema
/// with the value given for its key, or absent where the key is not given.
fn properties_of(group: &Vec<RawEntry>) -> (properties: ServiceProperties)
    ensures
        properties@ == service_fields(raw_entries(group@)),
{
    let properties = ServiceProperties {
        Type: text_value(group, "Type"),
        ExecStart: text_value(group, "ExecStart"),
        Restart: text_value(group, "Restart"),
        User: text_value(group, "User"),
        Group: text_value(group, "Group"),
        WorkingDirectory: text_value(group, "WorkingDirectory"),
        Nice: integer_value(group, "Nice"),
        UMask: text_value(group, "UMask"),
        RestartSec: text_value(group, "RestartSec"),
        TimeoutStartSec: text_value(group, "TimeoutStartSec"),
        TimeoutStopSec: text_value(group, "TimeoutStopSec"),
        SuccessExitStatus: text_value(group, "SuccessExitStatus"),
        LimitNOFILE: integer_value(group, "LimitNOFILE"),
        LimitCORE: text_value(group, "LimitCORE"),
        LimitAS: text_value(group, "LimitAS"),
        LimitCPU: text_value(group, "LimitCPU"),
        LimitFSIZE: text_value(group, "LimitFSIZE"),
        LimitNPROC: integer_value(group, "LimitNPROC"),
        LimitSTACK: text_value(group, "LimitSTACK"),
        LimitRTPRIO: integer_value(group, "LimitRTPRIO"),
        CPUSet: text_value(group, "CPUSet"),
        Delegate: text_value(group, "Delegate"),
        ProtectHome: text_value(group, "ProtectHome"),
        ProtectSystem: text_value(group, "ProtectSystem"),
        PrivateTmp: text_value(group, "PrivateTmp"),
        PrivateDevices: text_value(group, "PrivateDevices"),
        ProtectKernelModules: text_value(group, "ProtectKernelModules"),
        ProtectKernelTunables: text_value(group, "ProtectKernelTunables"),
        ProtectControlGroups: text_value(group, "ProtectControlGroups"),
        MemoryDenyGroup: text_value(group, "MemoryDenyGroup"),
        IOWeight: integer_value(group, "IOWeight"),
        IOWeightDevice: text_list_value(group, "IOWeightDevice"),
        BlockIOWeight: integer_value(group, "BlockIOWeight"),
        BlockIOWeightDevice: text_list_value(group, "BlockIOWeightDevice"),
        TasksMax: integer_value(group, "TasksMax"),
        Slice: text_value(group, "Slice"),
        NUMANode: integer_value(group, "NUMANode"),
        NUMAAffinity: integer_list_value(group, "NUMAAffinity"),
    };
    proof {
        let expected = service_fields(raw_entries(group@));
        assert(properties@ =~= expected);
    }
    properties
}

/// The execution properties of an optional group.
fn properties_of_group(group: &Option<Vec<RawEntry>>) -> (properties: Option<ServiceProperties>)
    ensures
        match properties {
            Some(p) => raw_group(*group) is Some && p@ == service_fields(raw_group(*group)->0),
            None => raw_group(*group) is None,
        },
{
    match group {
        None => None,
        Some(g) => Some(properties_of(g)),
    }
}

/// Holds a description against the schema. It is accepted when no entry of
/// its groups has a value of the wrong shape or a key that was given before;
/// the service that comes back then holds the same settings, typed. It is
/// refused with the key of the first entry that stands in the way, the groups
/// taken in the order install, unit, service, environment. A key of the
/// service group that the schema does not know is passed over.
pub fn normalize(raw: &RawDescriptor) -> (result: Result<ServiceConfig, DeployError>)
    ensures
        match result {
            Ok(config) => descriptor_fault(raw@) is None && config@ == normalized(raw@),
            Err(e) => descriptor_fault(raw@) is Some && e@ == (ErrorView::InvalidFieldValue {
                descriptor: raw.name@,
                field: descriptor_fault(raw@)->0,
            }),
        },
{
    let table = schema_table();
    if let Some(field) = fault_of_group(&table, &raw.install, true) {
        return Err(DeployError::InvalidFieldValue { descriptor: copy_text(&raw.name), field });
    }
    if let Some(field) = fault_of_group(&table, &raw.unit, true) {
        return Err(DeployError::InvalidFieldValue { descriptor: copy_text(&raw.name), field });
    }
    if let Some(field) = fault_of_group(&table, &raw.service, false) {
        return Err(DeployError::InvalidFieldValue { descriptor: copy_text(&raw.name), field });
    }
    if let Some(field) = fault_of_group(&table, &raw.environment, true) {
        return Err(DeployError::InvalidFieldValue { descriptor: copy_text(&raw.name), field });
    }
    let service = MyService {
        name: copy_text(&raw.name),
        install: settings_of_group(&raw.install),
        unit: settings_of_group(&raw.unit),
        service: properties_of_group(&raw.service),
        environment: settings_of_group(&raw.environment),
    };
    Ok(ServiceConfig { my_service: service })
}

/// A copy of the elements of a list.
fn copy_scalars(items: &Vec<RawScalar>) -> (copy: Vec<RawScalar>)
    ensures
        scalars(copy@) == scalars(items@),
{
    let mut copy: Vec<RawScalar> = Vec::new();
    let mut i: usize = 0;
    while i < items.len()
        invariant
            i <= items.len(),
            copy.len() == i,
            forall|j: int| 0 <= j < i ==> (#[trigger] copy@[j])@ == items@[j]@,
        decreases items.len() - i,
    {
        let item = match &items[i] {
            RawScalar::Text(s) => RawScalar::Text(copy_text(s)),
            RawScalar::Integer(n) => RawScalar::Integer(*n),
            RawScalar::Other => RawScalar::Other,
        };
        copy.push(item);
        i += 1;
    }
    assert(scalars(copy@) =~= scalars(items@));
    copy
}

/// A copy of the entries of a group.
fn copy_entries(group: &Vec<RawEntry>) -> (copy: Vec<RawEntry>)
    ensures
        raw_entries(copy@) == raw_entries(group@),
{
    let mut copy: Vec<RawEntry> = Vec::new();
    let mut i: usize = 0;
    while i < group.len()
        invariant
            i <= group.len(),
            copy.len() == i,
            forall|j: int| 0 <= j < i ==> (#[trigger] copy@[j])@ == group@[j]@,
        decreases group.len() - i,
    {
        let value = match &group[i].value {
            RawValue::Text(s) => RawValue::Text(copy_text(s)),
            RawValue::Integer(n) => RawValue::Integer(*n),
            RawValue::List(items) => RawValue::List(copy_scalars(items)),
            RawValue::Other => RawValue::Other,
        };
        copy.push(RawEntry { key: copy_text(&group[i].key), value });
        i += 1;
    }
    assert(raw_entries(copy@) =~= raw_entries(group@));
    copy
}

/// A copy of an optional group.
fn copy_group(group: &Option<Vec<RawEntry>>) -> (copy: Option<Vec<RawEntry>>)
    ensures
        raw_group(copy) == raw_group(*group),
{
    match group {
        Some(g) => Some(copy_entries(g)),
        None => None,
    }
}

impl RawDescriptor {
    /// A copy of the description.
    pub fn duplicate(&self) -> (copy: RawDescriptor)
        ensures
            copy@ == self@,
    {
        RawDescriptor {
            name: copy_text(&self.name),
            install: copy_group(&self.install),
            unit: copy_group(&self.unit),
            service: copy_group(&self.service),
            environment: copy_group(&self.environment),
        }
    }
}

} // verus!
