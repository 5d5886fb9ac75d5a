//! A parsed input file as a tree of plain values, and the reading of service
//! descriptions from it.
//!
//! A description file is a mapping from service names to services. A service
//! is a mapping that may hold the groups `install`, `unit`, `service` and
//! `environment`, each a mapping from keys to values, or nothing. Other keys
//! of a service are passed over. A file of another shape is malformed as a
//! whole: a name or a key that is no string, a service or a group that is no
//! mapping, a group that is named twice.

use vstd::prelude::*;
use crate::descriptor::{
    raw_entries, raw_group, scalars, DescriptorView, RawDescriptor, RawEntry, RawEntryView, RawScalar, RawValue,
    ScalarView, ValueView,
};
use crate::loader::{descriptors_view, ContentView, FileContent, InputFile};
use crate::text::{copy_text, same_text};

verus! {

/// A node of a parsed document.
#[derive(Debug, PartialEq, Eq)]
pub enum Node {
    /// Nothing: a key without a value.
    Null,
    Text(String),
    Integer(i64),
    List(Vec<Node>),
    /// A mapping, as the pairs of a key and a value in the order of the file.
    Table(Vec<Pair>),
    /// Anything else: a boolean, a number that is no integer, a tagged value.
    Other,
}

/// A key of a mapping with its value.
#[derive(Debug, PartialEq, Eq)]
pub struct Pair {
    pub key: Node,
    pub value: Node,
}

/// The element of a list that a node stands for. A list or a mapping inside
/// a list is no element that a description can hold.
pub open spec fn scalar_of(n: Node) -> ScalarView {
    match n {
        Node::Text(s) => ScalarView::Text(s@),
        Node::Integer(i) => ScalarView::Integer(i as int),
        _ => ScalarView::Other,
    }
}

/// The elements that the nodes of a list stand for.
pub open spec fn scalars_of(items: Seq<Node>) -> Seq<ScalarView> {
    items.map_values(|n: Node| scalar_of(n))
}

/// The value that a node stands for.
pub open spec fn value_of(n: Node) -> ValueView {
    match n {
        Node::Text(s) => ValueView::Text(s@),
        Node::Integer(i) => ValueView::Integer(i as int),
        Node::List(items) => ValueView::List(scalars_of(items@)),
        _ => ValueView::Other,
    }
}

/// True of a pair whose key is the string `key`.
pub open spec fn has_key(p: Pair, key: Seq<char>) -> bool {
    p.key matches Node::Text(k) && k@ == key
}

/// The entry that a pair stands for: none where its key is no string.
pub open spec fn entry_of(p: Pair) -> Option<RawEntryView> {
    match p.key {
        Node::Text(k) => Some(RawEntryView { key: k@, value: value_of(p.value) }),
        _ => None,
    }
}

/// The entries that the pairs of a group stand for: none where a key is no string.
pub open spec fn entries_of(pairs: Seq<Pair>) -> Option<Seq<RawEntryView>> {
    if forall|i: int| 0 <= i < pairs.len() ==> entry_of(#[trigger] pairs[i]) is Some {
        Some(pairs.map_values(|p: Pair| entry_of(p)->0))
    } else {
        None
    }
}

/// The group that a node stands for: no group for nothing, the entries of a
/// mapping, and an error for anything else.
pub open spec fn group_of(n: Node) -> Result<Option<Seq<RawEntryView>>, ()> {
    match n {
        Node::Null => Ok(None),
        Node::Table(pairs) => match entries_of(pairs@) {
            Some(entries) => Ok(Some(entries)),
            None => Err(()),
        },
        _ => Err(()),
    }
}

/// True when the `i`-th pair is the first with the key `key`.
pub open spec fn is_first_keyed(pairs: Seq<Pair>, key: Seq<char>, i: int) -> bool {
    &&& 0 <= i < pairs.len()
    &&& has_key(pairs[i], key)
    &&& forall|j: int| 0 <= j < i ==> !has_key(#[trigger] pairs[j], key)
}

/// True when two pairs have the key `key`.
pub open spec fn keyed_twice(pairs: Seq<Pair>, key: Seq<char>) -> bool {
    exists|i: int, j: int|
        0 <= i < j < pairs.len() && has_key(#[trigger] pairs[i], key) && has_key(#[trigger] pairs[j], key)
}

/// The group that a service gives under the name `key`: no group where the
/// name does not occur, an error where it occurs twice.
pub open spec fn group_named(pairs: Seq<Pair>, key: Seq<char>) -> Result<
    Option<Seq<RawEntryView>>,
    (),
> {
    if keyed_twice(pairs, key) {
        Err(())
    } else if exists|i: int| is_first_keyed(pairs, key, i) {
        group_of(pairs[choose|i: int| is_first_keyed(pairs, key, i)].value)
    } else {
        Ok(None)
    }
}

/// The description that a pair of the document stands for: none where the
/// name is no string, the service is no mapping, or one of its groups cannot
/// be read.
pub open spec fn descriptor_of(p: Pair) -> Option<DescriptorView> {
    match (p.key, p.value) {
        (Node::Text(name), Node::Table(body)) => {
            let install = group_named(body@, "install"@);
            let unit = group_named(body@, "unit"@);
            let service = group_named(body@, "service"@);
            let environment = group_named(body@, "environment"@);
            if install is Ok && unit is Ok && service is Ok && environment is Ok {
                Some(
                    DescriptorView {
                        name: name@,
                        install: install->Ok_0,
                        unit: unit->Ok_0,
                        service: service->Ok_0,
                        environment: environment->Ok_0,
                    },
                )
            } else {
                None
            }
        },
        _ => None,
    }
}

/// What the pairs of a document hold: the descriptions that they stand for,
/// in their order, or nothing that can be used where one of them stands for
/// none.
pub open spec fn descriptions_of(pairs: Seq<Pair>) -> ContentView {
    if forall|i: int| 0 <= i < pairs.len() ==> descriptor_of(#[trigger] pairs[i]) is Some {
        ContentView::Parsed(pairs.map_values(|p: Pair| descriptor_of(p)->0))
    } else {
        ContentView::Malformed
    }
}

/// What a document holds: the descriptions of its pairs where it is a
/// mapping, and nothing that can be used otherwise.
pub open spec fn content_of(document: Node) -> ContentView {
    match document {
        Node::Table(pairs) => descriptions_of(pairs@),
        _ => ContentView::Malformed,
    }
}

/// The element of a list that a node stands for.
fn scalar(n: &Node) -> (s: RawScalar)
    ensures
        s@ == scalar_of(*n),
{
    match n {
        Node::Text(s) => RawScalar::Text(copy_text(s)),
        Node::Integer(i) => RawScalar::Integer(*i),
        _ => RawScalar::Other,
    }
}

/// The value that a node stands for.
fn value(n: &Node) -> (v: RawValue)
    ensures
        v@ == value_of(*n),
{
    match n {
        Node::Text(s) => RawValue::Text(copy_text(s)),
        Node::Integer(i) => RawValue::Integer(*i),
        Node::List(items) => {
            let mut list: Vec<RawScalar> = Vec::new();
            let mut i: usize = 0;
            while i < items.len()
                invariant
                    i <= items.len(),
                    list.len() == i,
                    forall|j: int| 0 <= j < i ==> (#[trigger] list@[j])@ == scalar_of(items@[j]),
                decreases items.len() - i,
            {
                list.push(scalar(&items[i]));
                i += 1;
            }
            assert(scalars(list@) =~= scalars_of(items@));
            RawValue::List(list)
        },
        _ => RawValue::Other,
    }
}

/// The entries that the pairs of a group stand for.
fn entries(pairs: &Vec<Pair>) -> (found: Option<Vec<RawEntry>>)
    ensures
        match found {
            Some(group) => entries_of(pairs@) == Some(raw_entries(group@)),
            None => entries_of(pairs@) is None,
        },
{
    let mut group: Vec<RawEntry> = Vec::new();
    let mut i: usize = 0;
    while i < pairs.len()
        invariant
            i <= pairs.len(),
            group.len() == i,
            forall|j: int| 0 <= j < i ==> entry_of(#[trigger] pairs@[j]) == Some(group@[j]@),
        decreases pairs.len() - i,
    {
        match &pairs[i].key {
            Node::Text(k) => {
                group.push(RawEntry { key: copy_text(k), value: value(&pairs[i].value) });
            },
            _ => {
                assert(entry_of(pairs@[i as int]) is None);
                return None;
            },
        }
        i += 1;
    }
    assert(raw_entries(group@) =~= pairs@.map_values(|p: Pair| entry_of(p)->0));
    Some(group)
}

/// The group that a node stands for.
fn group(n: &Node) -> (found: Result<Option<Vec<RawEntry>>, ()>)
    ensures
        match found {
            Ok(g) => group_of(*n) == Ok::<Option<Seq<RawEntryView>>, ()>(raw_group(g)),
            Err(_) => group_of(*n) is Err,
        },
{
    match n {
        Node::Null => Ok(None),
        Node::Table(pairs) => match entries(pairs) {
            Some(group) => Ok(Some(group)),
            None => Err(()),
        },
        _ => Err(()),
    }
}

/// Tells whether the key of a pair is the string `key`.
fn key_is(p: &Pair, key: &str) -> (is: bool)
    ensures
        is == has_key(*p, key@),
{
    match &p.key {
        Node::Text(k) => same_text(k, key),
        _ => false,
    }
}

/// The group that a service gives under the name `key`.
fn named_group(body: &Vec<Pair>, key: &str) -> (found: Result<Option<Vec<RawEntry>>, ()>)
    ensures
        match found {
            Ok(g) => group_named(body@, key@) == Ok::<Option<Seq<RawEntryView>>, ()>(
                raw_group(g),
            ),
            Err(_) => group_named(body@, key@) is Err,
        },
{
    let mut first: Option<usize> = None;
    let mut i: usize = 0;
    while i < body.len()
        invariant
            i <= body.len(),
            match first {
                Some(at) => at < i && is_first_keyed(body@, key@, at as int) && forall|j: int|
                    at < j < i ==> !has_key(#[trigger] body@[j], key@),
                None => forall|j: int| 0 <= j < i ==> !has_key(#[trigger] body@[j], key@),
            },
        decreases body.len() - i,
    {
        if key_is(&body[i], key) {
            match first {
                Some(at) => {
                    assert(has_key(body@[at as int], key@) && has_key(body@[i as int], key@));
                    return Err(());
                },
                None => {
                    first = Some(i);
                },
            }
        }
        i += 1;
    }
    match first {
        Some(at) => {
            proof {
                assert(!keyed_twice(body@, key@)) by {
                    if keyed_twice(body@, key@) {
                        let (a, b) = choose|a: int, b: int|
                            0 <= a < b < body@.len() && has_key(#[trigger] body@[a], key@) && has_key(
                                #[trigger] body@[b],
                                key@,
                            );
                        assert(a >= at);
                    }
                }
                let c = choose|c: int| is_first_keyed(body@, key@, c);
                if c < at {
                    assert(has_key(body@[c], key@));
                } else if at < c {
                    assert(has_key(body@[at as int], key@));
                }
            }
            group(&body[at].value)
        },
        None => {
            assert(!keyed_twice(body@, key@));
            Ok(None)
        },
    }
}

/// The description that a pair of the document stands for.
fn descriptor(p: &Pair) -> (found: Option<RawDescriptor>)
    ensures
        match found {
            Some(d) => descriptor_of(*p) == Some(d@),
            None => descriptor_of(*p) is None,
        },
{
    match (&p.key, &p.value) {
        (Node::Text(name), Node::Table(body)) => {
            let install = match named_group(body, "install") {
                Ok(g) => g,
                Err(_) => {
                    return None;
                },
            };
            let unit = match named_group(body, "unit") {
                Ok(g) => g,
                Err(_) => {
                    return None;
                },
            };
            let service = match named_group(body, "service") {
                Ok(g) => g,
                Err(_) => {
                    return None;
                },
            };
            let environment = match named_group(body, "environment") {
                Ok(g) => g,
                Err(_) => {
                    return None;
                },
            };
            Some(RawDescriptor { name: copy_text(name), install, unit, service, environment })
        },
        _ => None,
    }
}

/// Reads the descriptions that the pairs of a document stand for.
fn read_pairs(pairs: &Vec<Pair>) -> (content: FileContent)
    ensures
        content@ == descriptions_of(pairs@),
{
    let mut descriptors: Vec<RawDescriptor> = Vec::new();
    let mut i: usize = 0;
    while i < pairs.len()
        invariant
            i <= pairs.len(),
            descriptors.len() == i,
            forall|j: int| 0 <= j < i ==> descriptor_of(#[trigger] pairs@[j]) == Some(descriptors@[j]@),
        decreases pairs.len() - i,
    {
        match descriptor(&pairs[i]) {
            Some(d) => {
                descriptors.push(d);
            },
            None => {
                assert(descriptor_of(pairs@[i as int]) is None);
                return FileContent::Malformed;
            },
        }
        i += 1;
    }
    assert(descriptors_view(descriptors@) =~= pairs@.map_values(|p: Pair| descriptor_of(p)->0));
    FileContent::Parsed(descriptors)
}

/// Reads the service descriptions of a parsed document. The file is
/// malformed unless the document is a mapping each of whose pairs stands for
/// a description.
pub fn read_document(document: &Node) -> (content: FileContent)
    ensures
        content@ == content_of(*document),
{
    match document {
        Node::Table(pairs) => read_pairs(pairs),
        _ => FileContent::Malformed,
    }
}

/// What is known of an input file after the attempt to read and parse it:
/// the descriptions of its document, or, where there is no document because
/// the file could not be read or its text could not be parsed, that it is
/// malformed.
pub fn input_file(path: &str, document: &Option<Node>) -> (file: InputFile)
    ensures
        file@.path == path@,
        file@.content == match *document {
            Some(node) => content_of(node),
            None => ContentView::Malformed,
        },
{
    let content = match document {
        Some(node) => read_document(node),
        None => FileContent::Malformed,
    };
    InputFile { path: String::from_str(path), content }
}

} // verus!
