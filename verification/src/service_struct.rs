//! The description of one service: its name, its three free-form groups of
//! settings and its execution properties, which follow a fixed schema.

use vstd::prelude::*;

verus! {

/// The four shapes a schema field can have.
#[derive(Debug, Clone, Copy, PartialEq, Eq, Structural)]
pub enum FieldKind {
    Text,
    Integer,
    TextList,
    IntegerList,
}

/// What a present schema field holds, as a mathematical value.
pub enum TypedValue {
    Text(Seq<char>),
    Integer(int),
    TextList(Seq<Seq<char>>),
    IntegerList(Seq<int>),
}

impl TypedValue {
    /// The shape of the value.
    pub open spec fn kind(self) -> FieldKind {
        match self {
            TypedValue::Text(_) => FieldKind::Text,
            TypedValue::Integer(_) => FieldKind::Integer,
            TypedValue::TextList(_) => FieldKind::TextList,
            TypedValue::IntegerList(_) => FieldKind::IntegerList,
        }
    }
}

/// One schema field of a service: its key and, if it is present, its value.
pub struct Field {
    pub key: Seq<char>,
    pub value: Option<TypedValue>,
}

/// One line of the schema: a key and the shape of its values.
pub struct SchemaEntry {
    pub key: Seq<char>,
    pub kind: FieldKind,
}

/// A key with its value, both as text.
pub struct Entry {
    pub key: Seq<char>,
    pub value: Seq<char>,
}

/// The characters of each string of `items`.
pub open spec fn texts(items: Seq<String>) -> Seq<Seq<char>> {
    items.map_values(|s: String| s@)
}

/// The numbers of `items` as mathematical integers.
pub open spec fn integers(items: Seq<i32>) -> Seq<int> {
    items.map_values(|n: i32| n as int)
}

/// The field `key` of a service whose value, if any, is a string.
pub open spec fn text_field(key: Seq<char>, value: Option<String>) -> Field {
    Field {
        key,
        value: match value {
            Some(s) => Some(TypedValue::Text(s@)),
            None => None,
        },
    }
}

/// The field `key` of a service whose value, if any, is an integer.
pub open spec fn integer_field(key: Seq<char>, value: Option<i32>) -> Field {
    Field {
        key,
        value: match value {
            Some(n) => Some(TypedValue::Integer(n as int)),
            None => None,
        },
    }
}

/// The field `key` of a service whose value, if any, is a list of strings.
pub open spec fn text_list_field(key: Seq<char>, value: Option<Vec<String>>) -> Field {
    Field {
        key,
        value: match value {
            Some(items) => Some(TypedValue::TextList(texts(items@))),
            None => None,
        },
    }
}

/// The field `key` of a service whose value, if any, is a list of integers.
pub open spec fn integer_list_field(key: Seq<char>, value: Option<Vec<i32>>) -> Field {
    Field {
        key,
        value: match value {
            Some(items) => Some(TypedValue::IntegerList(integers(items@))),
            None => None,
        },
    }
}

/// The execution properties of a service. Every field is optional; a field
/// that is `None` is absent from the description. The name of a field is its
/// key in a unit file.
#[allow(non_snake_case)]
#[derive(Debug, Clone, PartialEq, Eq)]
pub struct ServiceProperties {
    pub Type: Option<String>,
    pub ExecStart: Option<String>,
    pub Restart: Option<String>,
    pub User: Option<String>,
    pub Group: Option<String>,
    pub WorkingDirectory: Option<String>,
    pub Nice: Option<i32>,
    pub UMask: Option<String>,
    pub RestartSec: Option<String>,
    pub TimeoutStartSec: Option<String>,
    pub TimeoutStopSec: Option<String>,
    pub SuccessExitStatus: Option<String>,
    pub LimitNOFILE: Option<i32>,
    pub LimitCORE: Option<String>,
    pub LimitAS: Option<String>,
    pub LimitCPU: Option<String>,
    pub LimitFSIZE: Option<String>,
    pub LimitNPROC: Option<i32>,
    pub LimitSTACK: Option<String>,
    pub LimitRTPRIO: Option<i32>,
    pub CPUSet: Option<String>,
    pub Delegate: Option<String>,
    pub ProtectHome: Option<String>,
    pub ProtectSystem: Option<String>,
    pub PrivateTmp: Option<String>,
    pub PrivateDevices: Option<String>,
    pub ProtectKernelModules: Option<String>,
    pub ProtectKernelTunables: Option<String>,
    pub ProtectControlGroups: Option<String>,
    pub MemoryDenyGroup: Option<String>,
    pub IOWeight: Option<i32>,
    pub IOWeightDevice: Option<Vec<String>>,
    pub BlockIOWeight: Option<i32>,
    pub BlockIOWeightDevice: Option<Vec<String>>,
    pub TasksMax: Option<i32>,
    pub Slice: Option<String>,
    pub NUMANode: Option<i32>,
    pub NUMAAffinity: Option<Vec<i32>>,
}

/// The schema of the execution properties: the keys in the order in which
/// they are written to a unit file, each with the shape of its values.
pub open spec fn schema() -> Seq<SchemaEntry> {
    seq![
        SchemaEntry { key: "Type"@, kind: FieldKind::Text },
        SchemaEntry { key: "ExecStart"@, kind: FieldKind::Text },
        SchemaEntry { key: "Restart"@, kind: FieldKind::Text },
        SchemaEntry { key: "User"@, kind: FieldKind::Text },
        SchemaEntry { key: "Group"@, kind: FieldKind::Text },
        SchemaEntry { key: "WorkingDirectory"@, kind: FieldKind::Text },
        SchemaEntry { key: "Nice"@, kind: FieldKind::Integer },
        SchemaEntry { key: "UMask"@, kind: FieldKind::Text },
        SchemaEntry { key: "RestartSec"@, kind: FieldKind::Text },
        SchemaEntry { key: "TimeoutStartSec"@, kind: FieldKind::Text },
        SchemaEntry { key: "TimeoutStopSec"@, kind: FieldKind::Text },
        SchemaEntry { key: "SuccessExitStatus"@, kind: FieldKind::Text },
        SchemaEntry { key: "LimitNOFILE"@, kind: FieldKind::Integer },
        SchemaEntry { key: "LimitCORE"@, kind: FieldKind::Text },
        SchemaEntry { key: "LimitAS"@, kind: FieldKind::Text },
        SchemaEntry { key: "LimitCPU"@, kind: FieldKind::Text },
        SchemaEntry { key: "LimitFSIZE"@, kind: FieldKind::Text },
        SchemaEntry { key: "LimitNPROC"@, kind: FieldKind::Integer },
        SchemaEntry { key: "LimitSTACK"@, kind: FieldKind::Text },
        SchemaEntry { key: "LimitRTPRIO"@, kind: FieldKind::Integer },
        SchemaEntry { key: "CPUSet"@, kind: FieldKind::Text },
        SchemaEntry { key: "Delegate"@, kind: FieldKind::Text },
        SchemaEntry { key: "ProtectHome"@, kind: FieldKind::Text },
        SchemaEntry { key: "ProtectSystem"@, kind: FieldKind::Text },
        SchemaEntry { key: "PrivateTmp"@, kind: FieldKind::Text },
        SchemaEntry { key: "PrivateDevices"@, kind: FieldKind::Text },
        SchemaEntry { key: "ProtectKernelModules"@, kind: FieldKind::Text },
        SchemaEntry { key: "ProtectKernelTunables"@, kind: FieldKind::Text },
        SchemaEntry { key: "ProtectControlGroups"@, kind: FieldKind::Text },
        SchemaEntry { key: "MemoryDenyGroup"@, kind: FieldKind::Text },
        SchemaEntry { key: "IOWeight"@, kind: FieldKind::Integer },
        SchemaEntry { key: "IOWeightDevice"@, kind: FieldKind::TextList },
        SchemaEntry { key: "BlockIOWeight"@, kind: FieldKind::Integer },
        SchemaEntry { key: "BlockIOWeightDevice"@, kind: FieldKind::TextList },
        SchemaEntry { key: "TasksMax"@, kind: FieldKind::Integer },
        SchemaEntry { key: "Slice"@, kind: FieldKind::Text },
        SchemaEntry { key: "NUMANode"@, kind: FieldKind::Integer },
        SchemaEntry { key: "NUMAAffinity"@, kind: FieldKind::IntegerList },
    ]
}

/// The shape that the schema gives to `key`, if it is a key of the schema.
pub open spec fn schema_kind(key: Seq<char>) -> Option<FieldKind> {
    if exists|i: int| 0 <= i < schema().len() && schema()[i].key == key {
        let i = choose|i: int| 0 <= i < schema().len() && schema()[i].key == key;
        Some(schema()[i].kind)
    } else {
        None
    }
}


/// Three marks of a key that no two keys of the schema share: its length, its
/// first character and its eighth, if it has one.
spec fn key_marks(key: Seq<char>) -> (nat, char, char) {
    (key.len(), key[0], if key.len() > 7 { key[7] } else { ' ' })
}

/// No key occurs twice in the schema.
pub proof fn lemma_schema_keys_distinct()
    ensures
        schema().len() == 38,
        forall|i: int, j: int|
            0 <= i < j < schema().len() ==> (#[trigger] schema()[i]).key != (#[trigger] schema()[j]).key,
{
    reveal_strlit("Type");
    reveal_strlit("ExecStart");
    reveal_strlit("Restart");
    reveal_strlit("User");
    reveal_strlit("Group");
    reveal_strlit("WorkingDirectory");
    reveal_strlit("Nice");
    reveal_strlit("UMask");
    reveal_strlit("RestartSec");
    reveal_strlit("TimeoutStartSec");
    reveal_strlit("TimeoutStopSec");
    reveal_strlit("SuccessExitStatus");
    reveal_strlit("LimitNOFILE");
    reveal_strlit("LimitCORE");
    reveal_strlit("LimitAS");
    reveal_strlit("LimitCPU");
    reveal_strlit("LimitFSIZE");
    reveal_strlit("LimitNPROC");
    reveal_strlit("LimitSTACK");
    reveal_strlit("LimitRTPRIO");
    reveal_strlit("CPUSet");
    reveal_strlit("Delegate");
    reveal_strlit("ProtectHome");
    reveal_strlit("ProtectSystem");
    reveal_strlit("PrivateTmp");
    reveal_strlit("PrivateDevices");
    reveal_strlit("ProtectKernelModules");
    reveal_strlit("ProtectKernelTunables");
    reveal_strlit("ProtectControlGroups");
    reveal_strlit("MemoryDenyGroup");
    reveal_strlit("IOWeight");
    reveal_strlit("IOWeightDevice");
    reveal_strlit("BlockIOWeight");
    reveal_strlit("BlockIOWeightDevice");
    reveal_strlit("TasksMax");
    reveal_strlit("Slice");
    reveal_strlit("NUMANode");
    reveal_strlit("NUMAAffinity");
    assert forall|i: int, j: int| 0 <= i < j < schema().len() implies (#[trigger] schema()[i]).key != (
    #[trigger] schema()[j]).key by {
        assert(key_marks(schema()[i].key) != key_marks(schema()[j].key));
    }
}

/// The schema gives each of its keys the shape written beside it.
pub proof fn lemma_schema_kind_at(i: int)
    requires
        0 <= i < schema().len(),
    ensures
        schema_kind(schema()[i].key) == Some(schema()[i].kind),
{
    lemma_schema_keys_distinct();
    let key = schema()[i].key;
    let j = choose|j: int| 0 <= j < schema().len() && schema()[j].key == key;
    assert(schema()[j].key == schema()[i].key);
}

/// One line of the schema as it is held at run time.
pub struct SchemaRow {
    pub key: &'static str,
    pub kind: FieldKind,
}

impl View for SchemaRow {
    type V = SchemaEntry;

    open spec fn view(&self) -> SchemaEntry {
        SchemaEntry { key: self.key@, kind: self.kind }
    }
}

/// The lines of `rows` as mathematical values.
pub open spec fn rows_view(rows: Seq<SchemaRow>) -> Seq<SchemaEntry> {
    rows.map_values(|r: SchemaRow| r@)
}

/// The schema, for use at run time.
pub fn schema_table() -> (table: Vec<SchemaRow>)
    ensures
        rows_view(table@) == schema(),
{
    let mut table: Vec<SchemaRow> = Vec::new();
    table.push(SchemaRow { key: "Type", kind: FieldKind::Text });
    table.push(SchemaRow { key: "ExecStart", kind: FieldKind::Text });
    table.push(SchemaRow { key: "Restart", kind: FieldKind::Text });
    table.push(SchemaRow { key: "User", kind: FieldKind::Text });
    table.push(SchemaRow { key: "Group", kind: FieldKind::Text });
    table.push(SchemaRow { key: "WorkingDirectory", kind: FieldKind::Text });
    table.push(SchemaRow { key: "Nice", kind: FieldKind::Integer });
    table.push(SchemaRow { key: "UMask", kind: FieldKind::Text });
    table.push(SchemaRow { key: "RestartSec", kind: FieldKind::Text });
    table.push(SchemaRow { key: "TimeoutStartSec", kind: FieldKind::Text });
    table.push(SchemaRow { key: "TimeoutStopSec", kind: FieldKind::Text });
    table.push(SchemaRow { key: "SuccessExitStatus", kind: FieldKind::Text });
    table.push(SchemaRow { key: "LimitNOFILE", kind: FieldKind::Integer });
    table.push(SchemaRow { key: "LimitCORE", kind: FieldKind::Text });
    table.push(SchemaRow { key: "LimitAS", kind: FieldKind::Text });
    table.push(SchemaRow { key: "LimitCPU", kind: FieldKind::Text });
    table.push(SchemaRow { key: "LimitFSIZE", kind: FieldKind::Text });
    table.push(SchemaRow { key: "LimitNPROC", kind: FieldKind::Integer });
    table.push(SchemaRow { key: "LimitSTACK", kind: FieldKind::Text });
    table.push(SchemaRow { key: "LimitRTPRIO", kind: FieldKind::Integer });
    table.push(SchemaRow { key: "CPUSet", kind: FieldKind::Text });
    table.push(SchemaRow { key: "Delegate", kind: FieldKind::Text });
    table.push(SchemaRow { key: "ProtectHome", kind: FieldKind::Text });
    table.push(SchemaRow { key: "ProtectSystem", kind: FieldKind::Text });
    table.push(SchemaRow { key: "PrivateTmp", kind: FieldKind::Text });
    table.push(SchemaRow { key: "PrivateDevices", kind: FieldKind::Text });
    table.push(SchemaRow { key: "ProtectKernelModules", kind: FieldKind::Text });
    table.push(SchemaRow { key: "ProtectKernelTunables", kind: FieldKind::Text });
    table.push(SchemaRow { key: "ProtectControlGroups", kind: FieldKind::Text });
    table.push(SchemaRow { key: "MemoryDenyGroup", kind: FieldKind::Text });
    table.push(SchemaRow { key: "IOWeight", kind: FieldKind::Integer });
    table.push(SchemaRow { key: "IOWeightDevice", kind: FieldKind::TextList });
    table.push(SchemaRow { key: "BlockIOWeight", kind: FieldKind::Integer });
    table.push(SchemaRow { key: "BlockIOWeightDevice", kind: FieldKind::TextList });
    table.push(SchemaRow { key: "TasksMax", kind: FieldKind::Integer });
    table.push(SchemaRow { key: "Slice", kind: FieldKind::Text });
    table.push(SchemaRow { key: "NUMANode", kind: FieldKind::Integer });
    table.push(SchemaRow { key: "NUMAAffinity", kind: FieldKind::IntegerList });
    assert(rows_view(table@) =~= schema());
    table
}

impl View for ServiceProperties {
    type V = Seq<Field>;

    /// The fields in schema order.
    open spec fn view(&self) -> Seq<Field> {
        seq![
            text_field("Type"@, self.Type),
            text_field("ExecStart"@, self.ExecStart),
            text_field("Restart"@, self.Restart),
            text_field("User"@, self.User),
            text_field("Group"@, self.Group),
            text_field("WorkingDirectory"@, self.WorkingDirectory),
            integer_field("Nice"@, self.Nice),
            text_field("UMask"@, self.UMask),
            text_field("RestartSec"@, self.RestartSec),
            text_field("TimeoutStartSec"@, self.TimeoutStartSec),
            text_field("TimeoutStopSec"@, self.TimeoutStopSec),
            text_field("SuccessExitStatus"@, self.SuccessExitStatus),
            integer_field("LimitNOFILE"@, self.LimitNOFILE),
            text_field("LimitCORE"@, self.LimitCORE),
            text_field("LimitAS"@, self.LimitAS),
            text_field("LimitCPU"@, self.LimitCPU),
            text_field("LimitFSIZE"@, self.LimitFSIZE),
            integer_field("LimitNPROC"@, self.LimitNPROC),
            text_field("LimitSTACK"@, self.LimitSTACK),
            integer_field("LimitRTPRIO"@, self.LimitRTPRIO),
            text_field("CPUSet"@, self.CPUSet),
            text_field("Delegate"@, self.Delegate),
            text_field("ProtectHome"@, self.ProtectHome),
            text_field("ProtectSystem"@, self.ProtectSystem),
            text_field("PrivateTmp"@, self.PrivateTmp),
            text_field("PrivateDevices"@, self.PrivateDevices),
            text_field("ProtectKernelModules"@, self.ProtectKernelModules),
            text_field("ProtectKernelTunables"@, self.ProtectKernelTunables),
            text_field("ProtectControlGroups"@, self.ProtectControlGroups),
            text_field("MemoryDenyGroup"@, self.MemoryDenyGroup),
            integer_field("IOWeight"@, self.IOWeight),
            text_list_field("IOWeightDevice"@, self.IOWeightDevice),
            integer_field("BlockIOWeight"@, self.BlockIOWeight),
            text_list_field("BlockIOWeightDevice"@, self.BlockIOWeightDevice),
            integer_field("TasksMax"@, self.TasksMax),
            text_field("Slice"@, self.Slice),
            integer_field("NUMANode"@, self.NUMANode),
            integer_list_field("NUMAAffinity"@, self.NUMAAffinity),
        ]
    }
}


/// What a present field holds, borrowed from the properties.
pub enum ValueRef<'a> {
    Text(&'a String),
    Integer(i32),
    TextList(&'a Vec<String>),
    IntegerList(&'a Vec<i32>),
}

impl<'a> View for ValueRef<'a> {
    type V = TypedValue;

    open spec fn view(&self) -> TypedValue {
        match self {
            ValueRef::Text(s) => TypedValue::Text(s@),
            ValueRef::Integer(n) => TypedValue::Integer(*n as int),
            ValueRef::TextList(items) => TypedValue::TextList(texts(items@)),
            ValueRef::IntegerList(items) => TypedValue::IntegerList(integers(items@)),
        }
    }
}

/// One field of the properties, borrowed from them.
pub struct FieldRef<'a> {
    pub key: &'static str,
    pub value: Option<ValueRef<'a>>,
}

impl<'a> View for FieldRef<'a> {
    type V = Field;

    open spec fn view(&self) -> Field {
        Field {
            key: self.key@,
            value: match self.value {
                Some(v) => Some(v@),
                None => None,
            },
        }
    }
}

/// The borrowed fields as mathematical values.
pub open spec fn fields_view<'a>(fields: Seq<FieldRef<'a>>) -> Seq<Field> {
    fields.map_values(|f: FieldRef<'a>| f@)
}

fn text_ref<'a>(key: &'static str, value: &'a Option<String>) -> (field: FieldRef<'a>)
    ensures
        field@ == text_field(key@, *value),
{
    FieldRef {
        key,
        value: match value {
            Some(s) => Some(ValueRef::Text(s)),
            None => None,
        },
    }
}

fn integer_ref<'a>(key: &'static str, value: &'a Option<i32>) -> (field: FieldRef<'a>)
    ensures
        field@ == integer_field(key@, *value),
{
    FieldRef {
        key,
        value: match value {
            Some(n) => Some(ValueRef::Integer(*n)),
            None => None,
        },
    }
}

fn text_list_ref<'a>(key: &'static str, value: &'a Option<Vec<String>>) -> (field: FieldRef<'a>)
    ensures
        field@ == text_list_field(key@, *value),
{
    FieldRef {
        key,
        value: match value {
            Some(items) => Some(ValueRef::TextList(items)),
            None => None,
        },
    }
}

fn integer_list_ref<'a>(key: &'static str, value: &'a Option<Vec<i32>>) -> (field: FieldRef<'a>)
    ensures
        field@ == integer_list_field(key@, *value),
{
    FieldRef {
        key,
        value: match value {
            Some(items) => Some(ValueRef::IntegerList(items)),
            None => None,
        },
    }
}

impl ServiceProperties {
    /// The fields in schema order, each with its key.
    pub fn fields(&self) -> (fields: Vec<FieldRef<'_>>)
        ensures
            fields_view(fields@) == self@,
    {
        let mut fields: Vec<FieldRef<'_>> = Vec::new();
        fields.push(text_ref("Type", &self.Type));
        fields.push(text_ref("ExecStart", &self.ExecStart));
        fields.push(text_ref("Restart", &self.Restart));
        fields.push(text_ref("User", &self.User));
        fields.push(text_ref("Group", &self.Group));
        fields.push(text_ref("WorkingDirectory", &self.WorkingDirectory));
        fields.push(integer_ref("Nice", &self.Nice));
        fields.push(text_ref("UMask", &self.UMask));
        fields.push(text_ref("RestartSec", &self.RestartSec));
        fields.push(text_ref("TimeoutStartSec", &self.TimeoutStartSec));
        fields.push(text_ref("TimeoutStopSec", &self.TimeoutStopSec));
        fields.push(text_ref("SuccessExitStatus", &self.SuccessExitStatus));
        fields.push(integer_ref("LimitNOFILE", &self.LimitNOFILE));
        fields.push(text_ref("LimitCORE", &self.LimitCORE));
        fields.push(text_ref("LimitAS", &self.LimitAS));
        fields.push(text_ref("LimitCPU", &self.LimitCPU));
        fields.push(text_ref("LimitFSIZE", &self.LimitFSIZE));
        fields.push(integer_ref("LimitNPROC", &self.LimitNPROC));
        fields.push(text_ref("LimitSTACK", &self.LimitSTACK));
        fields.push(integer_ref("LimitRTPRIO", &self.LimitRTPRIO));
        fields.push(text_ref("CPUSet", &self.CPUSet));
        fields.push(text_ref("Delegate", &self.Delegate));
        fields.push(text_ref("ProtectHome", &self.ProtectHome));
        fields.push(text_ref("ProtectSystem", &self.ProtectSystem));
        fields.push(text_ref("PrivateTmp", &self.PrivateTmp));
        fields.push(text_ref("PrivateDevices", &self.PrivateDevices));
        fields.push(text_ref("ProtectKernelModules", &self.ProtectKernelModules));
        fields.push(text_ref("ProtectKernelTunables", &self.ProtectKernelTunables));
        fields.push(text_ref("ProtectControlGroups", &self.ProtectControlGroups));
        fields.push(text_ref("MemoryDenyGroup", &self.MemoryDenyGroup));
        fields.push(integer_ref("IOWeight", &self.IOWeight));
        fields.push(text_list_ref("IOWeightDevice", &self.IOWeightDevice));
        fields.push(integer_ref("BlockIOWeight", &self.BlockIOWeight));
        fields.push(text_list_ref("BlockIOWeightDevice", &self.BlockIOWeightDevice));
        fields.push(integer_ref("TasksMax", &self.TasksMax));
        fields.push(text_ref("Slice", &self.Slice));
        fields.push(integer_ref("NUMANode", &self.NUMANode));
        fields.push(integer_list_ref("NUMAAffinity", &self.NUMAAffinity));
        assert(fields_view(fields@) =~= self@);
        fields
    }

    /// Properties with every field absent.
    pub fn empty() -> (p: ServiceProperties)
        ensures
            p@.len() == schema().len(),
            forall|i: int| 0 <= i < p@.len() ==> p@[i] == (Field { key: schema()[i].key, value: None }),
    {
        ServiceProperties {
            Type: None,
            ExecStart: None,
            Restart: None,
            User: None,
            Group: None,
            WorkingDirectory: None,
            Nice: None,
            UMask: None,
            RestartSec: None,
            TimeoutStartSec: None,
            TimeoutStopSec: None,
            SuccessExitStatus: None,
            LimitNOFILE: None,
            LimitCORE: None,
            LimitAS: None,
            LimitCPU: None,
            LimitFSIZE: None,
            LimitNPROC: None,
            LimitSTACK: None,
            LimitRTPRIO: None,
            CPUSet: None,
            Delegate: None,
            ProtectHome: None,
            ProtectSystem: None,
            PrivateTmp: None,
            PrivateDevices: None,
            ProtectKernelModules: None,
            ProtectKernelTunables: None,
            ProtectControlGroups: None,
            MemoryDenyGroup: None,
            IOWeight: None,
            IOWeightDevice: None,
            BlockIOWeight: None,
            BlockIOWeightDevice: None,
            TasksMax: None,
            Slice: None,
            NUMANode: None,
            NUMAAffinity: None,
        }
    }
}

/// One setting of a free-form group.
#[derive(Debug, Clone, PartialEq, Eq)]
pub struct Setting {
    pub key: String,
    pub value: String,
}

impl View for Setting {
    type V = Entry;

    open spec fn view(&self) -> Entry {
        Entry { key: self.key@, value: self.value@ }
    }
}

/// The settings of a group as mathematical entries.
pub open spec fn entries(settings: Seq<Setting>) -> Seq<Entry> {
    settings.map_values(|s: Setting| s@)
}

/// The entries of an optional group.
pub open spec fn group_view(group: Option<Vec<Setting>>) -> Option<Seq<Entry>> {
    match group {
        Some(settings) => Some(entries(settings@)),
        None => None,
    }
}

/// A service as a mathematical value.
pub struct ServiceView {
    pub name: Seq<char>,
    pub install: Option<Seq<Entry>>,
    pub unit: Option<Seq<Entry>>,
    pub service: Option<Seq<Field>>,
    pub environment: Option<Seq<Entry>>,
}

/// One service: its name, which is also the base name of its unit file, and
/// its four optional groups. The groups `install`, `unit` and `environment`
/// hold settings in the order in which they were given.
#[derive(Debug, Clone, PartialEq, Eq)]
pub struct MyService {
    pub name: String,
    pub install: Option<Vec<Setting>>,
    pub unit: Option<Vec<Setting>>,
    pub service: Option<ServiceProperties>,
    pub environment: Option<Vec<Setting>>,
}

impl View for MyService {
    type V = ServiceView;

    open spec fn view(&self) -> ServiceView {
        ServiceView {
            name: self.name@,
            install: group_view(self.install),
            unit: group_view(self.unit),
            service: match self.service {
                Some(p) => Some(p@),
                None => None,
            },
            environment: group_view(self.environment),
        }
    }
}

/// One entry of a description file: the service that it declares.
#[derive(Debug, Clone, PartialEq, Eq)]
pub struct ServiceConfig {
    pub my_service: MyService,
}

impl View for ServiceConfig {
    type V = ServiceView;

    open spec fn view(&self) -> ServiceView {
        self.my_service@
    }
}

} // verus!
