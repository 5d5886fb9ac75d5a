//! Which files are read, and what is kept of what they hold.
//!
//! The caller looks at the input path, lists a directory, reads the files and
//! parses them; the decisions are taken here. A directory gives the files
//! whose name ends in `.yaml`; a single file is taken as it is named. A file
//! that cannot be read or parsed is passed over when it comes from a
//! directory and ends the run when it was named alone. Of two services with
//! the same name the one that was loaded first is kept and the other is
//! reported.

use vstd::prelude::*;
use crate::descriptor::{DescriptorView, RawDescriptor};
use crate::error::{failure_views, DeployError, ErrorView};
use crate::text::{copy_text, same_text};

verus! {

/// What stands at the input path.
#[derive(Debug, Clone, Copy, PartialEq, Eq, Structural)]
pub enum PathKind {
    Directory,
    File,
    /// Neither a directory nor a file: nothing, or something else.
    Other,
}

/// How the input is read.
#[derive(Debug, Clone, Copy, PartialEq, Eq, Structural)]
pub enum LoadMode {
    /// Every description file of a directory.
    Directory,
    /// One file that was named.
    SingleFile,
}

/// Decides how the input is read from what stands at the input path.
pub fn load_mode(kind: PathKind) -> (result: Result<LoadMode, DeployError>)
    ensures
        match kind {
            PathKind::Directory => result == Ok::<LoadMode, DeployError>(LoadMode::Directory),
            PathKind::File => result == Ok::<LoadMode, DeployError>(LoadMode::SingleFile),
            PathKind::Other => result == Err::<LoadMode, DeployError>(DeployError::InvalidInputPath),
        },
{
    match kind {
        PathKind::Directory => Ok(LoadMode::Directory),
        PathKind::File => Ok(LoadMode::SingleFile),
        PathKind::Other => Err(DeployError::InvalidInputPath),
    }
}

/// True of the name of a description file: it ends in `.yaml`, in lower
/// case, and something stands before the dot.
pub open spec fn has_descriptor_extension(name: Seq<char>) -> bool {
    name.len() > 5 && name.subrange(name.len() - 5, name.len() as int) == ".yaml"@
}

/// Tells whether `name` is the name of a description file.
pub fn is_descriptor_file(name: &str) -> (is: bool)
    ensures
        is == has_descriptor_extension(name@),
{
    proof {
        reveal_strlit(".yaml");
    }
    let len: usize = name.unicode_len();
    if len <= 5 {
        return false;
    }
    let ending = String::from_str(name.substring_char(len - 5, len));
    same_text(&ending, ".yaml")
}

/// The names among `names` that are names of description files, in their order.
pub open spec fn selected(names: Seq<Seq<char>>) -> Seq<Seq<char>>
    decreases names.len(),
{
    if names.len() == 0 {
        Seq::empty()
    } else if has_descriptor_extension(names.last()) {
        selected(names.drop_last()).push(names.last())
    } else {
        selected(names.drop_last())
    }
}

/// The characters of each name.
pub open spec fn names_view(names: Seq<String>) -> Seq<Seq<char>> {
    names.map_values(|n: String| n@)
}

/// Picks the description files among the entries of a directory.
pub fn descriptor_files(names: &Vec<String>) -> (files: Vec<String>)
    ensures
        names_view(files@) == selected(names_view(names@)),
{
    let mut files: Vec<String> = Vec::new();
    let mut i: usize = 0;
    assert(names_view(names@).take(0) =~= Seq::<Seq<char>>::empty());
    while i < names.len()
        invariant
            i <= names.len(),
            names_view(files@) == selected(names_view(names@).take(i as int)),
        decreases names.len() - i,
    {
        let ghost all = names_view(names@);
        assert(all.take(i + 1).drop_last() =~= all.take(i as int));
        assert(all.take(i + 1).last() == names@[i as int]@);
        if is_descriptor_file(names[i].as_str()) {
            let ghost before = names_view(files@);
            files.push(copy_text(&names[i]));
            assert(names_view(files@) =~= before.push(names@[i as int]@));
        }
        i += 1;
    }
    assert(names_view(names@).take(i as int) =~= names_view(names@));
    files
}

/// What was made of the content of a file.
#[derive(Debug, Clone, PartialEq, Eq)]
pub enum FileContent {
    /// The services that the file describes, in its order.
    Parsed(Vec<RawDescriptor>),
    /// The file could not be read, or does not hold a mapping of service descriptions.
    Malformed,
}

/// An input file after the attempt to read and parse it.
#[derive(Debug, Clone, PartialEq, Eq)]
pub struct InputFile {
    pub path: String,
    pub content: FileContent,
}

/// What a load keeps: the services to deploy, no two with the same name, and
/// the failures to report.
#[derive(Debug, Clone, PartialEq, Eq)]
pub struct Batch {
    pub descriptors: Vec<RawDescriptor>,
    pub failures: Vec<DeployError>,
}

/// The content of a file as a mathematical value.
pub enum ContentView {
    Parsed(Seq<DescriptorView>),
    Malformed,
}

/// An input file as a mathematical value.
pub struct InputFileView {
    pub path: Seq<char>,
    pub content: ContentView,
}

/// What a load keeps, as a mathematical value.
pub struct BatchView {
    pub descriptors: Seq<DescriptorView>,
    pub failures: Seq<ErrorView>,
}

/// The descriptions of a list as mathematical values.
pub open spec fn descriptors_view(descriptors: Seq<RawDescriptor>) -> Seq<DescriptorView> {
    descriptors.map_values(|d: RawDescriptor| d@)
}

impl View for FileContent {
    type V = ContentView;

    open spec fn view(&self) -> ContentView {
        match self {
            FileContent::Parsed(descriptors) => ContentView::Parsed(descriptors_view(descriptors@)),
            FileContent::Malformed => ContentView::Malformed,
        }
    }
}

impl View for InputFile {
    type V = InputFileView;

    open spec fn view(&self) -> InputFileView {
        InputFileView { path: self.path@, content: self.content@ }
    }
}

impl View for Batch {
    type V = BatchView;

    open spec fn view(&self) -> BatchView {
        BatchView {
            descriptors: descriptors_view(self.descriptors@),
            failures: failure_views(self.failures@),
        }
    }
}

/// The files of a list as mathematical values.
pub open spec fn files_view(files: Seq<InputFile>) -> Seq<InputFileView> {
    files.map_values(|f: InputFile| f@)
}

/// True when one of the descriptions has the name `name`.
pub open spec fn name_taken(descriptors: Seq<DescriptorView>, name: Seq<char>) -> bool {
    exists|i: int| 0 <= i < descriptors.len() && (#[trigger] descriptors[i]).name == name
}

/// True when no two of the descriptions have the same name.
pub open spec fn distinct_names(descriptors: Seq<DescriptorView>) -> bool {
    forall|i: int, j: int|
        0 <= i < j < descriptors.len() ==> (#[trigger] descriptors[i]).name != (
        #[trigger] descriptors[j]).name
}

/// The batch after one more description: it is kept unless its name is taken,
/// and reported otherwise.
pub open spec fn with_descriptor(batch: BatchView, d: DescriptorView) -> BatchView {
    if name_taken(batch.descriptors, d.name) {
        BatchView {
            descriptors: batch.descriptors,
            failures: batch.failures.push(ErrorView::DuplicateName { name: d.name }),
        }
    } else {
        BatchView { descriptors: batch.descriptors.push(d), failures: batch.failures }
    }
}

/// The batch after the descriptions of one file, taken in their order.
pub open spec fn with_descriptors(batch: BatchView, descriptors: Seq<DescriptorView>) -> BatchView
    decreases descriptors.len(),
{
    if descriptors.len() == 0 {
        batch
    } else {
        with_descriptor(with_descriptors(batch, descriptors.drop_last()), descriptors.last())
    }
}

/// The batch after one more file: its descriptions are added, or, where it
/// is malformed, the file is reported.
pub open spec fn with_file(batch: BatchView, file: InputFileView) -> BatchView {
    match file.content {
        ContentView::Parsed(descriptors) => with_descriptors(batch, descriptors),
        ContentView::Malformed => BatchView {
            descriptors: batch.descriptors,
            failures: batch.failures.push(ErrorView::ParseError { file: file.path }),
        },
    }
}

/// The batch after the files of a list, taken in their order.
pub open spec fn with_files(batch: BatchView, files: Seq<InputFileView>) -> BatchView
    decreases files.len(),
{
    if files.len() == 0 {
        batch
    } else {
        with_file(with_files(batch, files.drop_last()), files.last())
    }
}

/// What is kept of a list of files.
pub open spec fn collected(files: Seq<InputFileView>) -> BatchView {
    with_files(BatchView { descriptors: Seq::empty(), failures: Seq::empty() }, files)
}

/// True when the `i`-th file is the first that is malformed.
pub open spec fn is_first_malformed(files: Seq<InputFileView>, i: int) -> bool {
    &&& 0 <= i < files.len()
    &&& files[i].content is Malformed
    &&& forall|j: int| 0 <= j < i ==> (#[trigger] files[j]).content is Parsed
}

/// Tells whether one of the descriptions has the name `name`.
fn is_name_taken(descriptors: &Vec<RawDescriptor>, name: &String) -> (taken: bool)
    ensures
        taken == name_taken(descriptors_view(descriptors@), name@),
{
    let mut i: usize = 0;
    while i < descriptors.len()
        invariant
            i <= descriptors.len(),
            forall|j: int| 0 <= j < i ==> (#[trigger] descriptors_view(descriptors@)[j]).name != name@,
        decreases descriptors.len() - i,
    {
        if descriptors[i].name == *name {
            assert(descriptors_view(descriptors@)[i as int].name == name@);
            return true;
        }
        i += 1;
    }
    false
}

/// Adds the descriptions of one file to the batch.
fn add_descriptors(batch: &mut Batch, descriptors: &Vec<RawDescriptor>)
    ensures
        final(batch)@ == with_descriptors(old(batch)@, descriptors_view(descriptors@)),
{
    let ghost all = descriptors_view(descriptors@);
    let mut i: usize = 0;
    assert(all.take(0) =~= Seq::<DescriptorView>::empty());
    while i < descriptors.len()
        invariant
            i <= descriptors.len(),
            all == descriptors_view(descriptors@),
            batch@ == with_descriptors(old(batch)@, all.take(i as int)),
        decreases descriptors.len() - i,
    {
        let ghost before = batch@;
        assert(all.take(i + 1).drop_last() =~= all.take(i as int));
        assert(all.take(i + 1).last() == descriptors@[i as int]@);
        if is_name_taken(&batch.descriptors, &descriptors[i].name) {
            batch.failures.push(DeployError::DuplicateName { name: copy_text(&descriptors[i].name) });
            assert(batch@.failures =~= before.failures.push(
                ErrorView::DuplicateName { name: descriptors@[i as int]@.name },
            ));
        } else {
            batch.descriptors.push(descriptors[i].duplicate());
            assert(batch@.descriptors =~= before.descriptors.push(descriptors@[i as int]@));
        }
        i += 1;
    }
    assert(all.take(i as int) =~= all);
}

/// Gathers what the input files hold. In directory mode every file is taken
/// in: a malformed file is reported and the others are loaded. In
/// single-file mode the first malformed file ends the load. A description
/// whose name was already loaded is reported and left out.
pub fn collect(mode: LoadMode, files: &Vec<InputFile>) -> (result: Result<Batch, DeployError>)
    ensures
        match result {
            Ok(batch) => {
                &&& batch@ == collected(files_view(files@))
                &&& mode == LoadMode::SingleFile ==> forall|i: int|
                    0 <= i < files.len() ==> (#[trigger] files_view(files@)[i]).content is Parsed
            },
            Err(e) => {
                &&& mode == LoadMode::SingleFile
                &&& exists|i: int|
                    is_first_malformed(files_view(files@), i) && e@ == (ErrorView::ParseError {
                        file: files_view(files@)[i].path,
                    })
            },
        },
{
    let ghost all = files_view(files@);
    let mut batch = Batch { descriptors: Vec::new(), failures: Vec::new() };
    let mut i: usize = 0;
    assert(all.take(0) =~= Seq::<InputFileView>::empty());
    assert(batch@.descriptors =~= Seq::<DescriptorView>::empty());
    assert(batch@.failures =~= Seq::<ErrorView>::empty());
    while i < files.len()
        invariant
            i <= files.len(),
            all == files_view(files@),
            batch@ == collected(all.take(i as int)),
            mode == LoadMode::SingleFile ==> forall|j: int| 0 <= j < i ==> (#[trigger] all[j]).content is Parsed,
        decreases files.len() - i,
    {
        let ghost before = batch@;
        assert(all.take(i + 1).drop_last() =~= all.take(i as int));
        assert(all.take(i + 1).last() == files@[i as int]@);
        match &files[i].content {
            FileContent::Parsed(descriptors) => {
                add_descriptors(&mut batch, descriptors);
            },
            FileContent::Malformed => {
                let failure = DeployError::ParseError { file: copy_text(&files[i].path) };
                if mode == LoadMode::SingleFile {
                    assert(is_first_malformed(all, i as int));
                    return Err(failure);
                }
                batch.failures.push(failure);
                assert(batch@.failures =~= before.failures.push(
                    ErrorView::ParseError { file: files@[i as int]@.path },
                ));
                assert(batch@.descriptors =~= before.descriptors);
            },
        }
        i += 1;
    }
    assert(all.take(i as int) =~= all);
    Ok(batch)
}

/// The descriptions of the files that were parsed, in the order of the files.
pub open spec fn all_descriptors(files: Seq<InputFileView>) -> Seq<DescriptorView>
    decreases files.len(),
{
    if files.len() == 0 {
        Seq::empty()
    } else {
        all_descriptors(files.drop_last()) + match files.last().content {
            ContentView::Parsed(descriptors) => descriptors,
            ContentView::Malformed => Seq::empty(),
        }
    }
}

/// One failure for each malformed file, in the order of the files.
pub open spec fn parse_failures(files: Seq<InputFileView>) -> Seq<ErrorView>
    decreases files.len(),
{
    if files.len() == 0 {
        Seq::empty()
    } else {
        parse_failures(files.drop_last()) + match files.last().content {
            ContentView::Parsed(_) => Seq::empty(),
            ContentView::Malformed => seq![ErrorView::ParseError { file: files.last().path }],
        }
    }
}

/// Adding a description keeps the names of the batch distinct.
pub proof fn lemma_with_descriptor_keeps_distinct(batch: BatchView, d: DescriptorView)
    requires
        distinct_names(batch.descriptors),
    ensures
        distinct_names(with_descriptor(batch, d).descriptors),
{
}

/// Adding the descriptions of a file keeps the names of the batch distinct.
pub proof fn lemma_with_descriptors_keeps_distinct(batch: BatchView, descriptors: Seq<DescriptorView>)
    requires
        distinct_names(batch.descriptors),
    ensures
        distinct_names(with_descriptors(batch, descriptors).descriptors),
    decreases descriptors.len(),
{
    if descriptors.len() > 0 {
        lemma_with_descriptors_keeps_distinct(batch, descriptors.drop_last());
        lemma_with_descriptor_keeps_distinct(
            with_descriptors(batch, descriptors.drop_last()),
            descriptors.last(),
        );
    }
}

/// Adding files keeps the names of the batch distinct.
pub proof fn lemma_with_files_keeps_distinct(batch: BatchView, files: Seq<InputFileView>)
    requires
        distinct_names(batch.descriptors),
    ensures
        distinct_names(with_files(batch, files).descriptors),
    decreases files.len(),
{
    if files.len() > 0 {
        lemma_with_files_keeps_distinct(batch, files.drop_last());
        let before = with_files(batch, files.drop_last());
        match files.last().content {
            ContentView::Parsed(descriptors) => {
                lemma_with_descriptors_keeps_distinct(before, descriptors);
            },
            ContentView::Malformed => {},
        }
    }
}

/// No two services of a load have the same name, whatever the files hold.
pub proof fn lemma_collected_names_distinct(files: Seq<InputFileView>)
    ensures
        distinct_names(collected(files).descriptors),
{
    lemma_with_files_keeps_distinct(
        BatchView { descriptors: Seq::empty(), failures: Seq::empty() },
        files,
    );
}

/// Descriptions whose names are new to the batch and differ from each other
/// are all kept, and none is reported.
pub proof fn lemma_with_descriptors_all_kept(batch: BatchView, descriptors: Seq<DescriptorView>)
    requires
        distinct_names(batch.descriptors + descriptors),
    ensures
        with_descriptors(batch, descriptors) == (BatchView {
            descriptors: batch.descriptors + descriptors,
            failures: batch.failures,
        }),
    decreases descriptors.len(),
{
    let joined = batch.descriptors + descriptors;
    if descriptors.len() == 0 {
        assert(joined =~= batch.descriptors);
    } else {
        let front = descriptors.drop_last();
        let last = descriptors.last();
        assert forall|i: int, j: int| 0 <= i < j < (batch.descriptors + front).len() implies (
        #[trigger] (batch.descriptors + front)[i]).name != (#[trigger] (batch.descriptors + front)[j]).name by {
            assert((batch.descriptors + front)[i] == joined[i]);
            assert((batch.descriptors + front)[j] == joined[j]);
        }
        lemma_with_descriptors_all_kept(batch, front);
        let before = with_descriptors(batch, front);
        assert(last == joined[joined.len() - 1]);
        assert forall|i: int| 0 <= i < before.descriptors.len() implies (
        #[trigger] before.descriptors[i]).name != last.name by {
            assert(before.descriptors[i] == joined[i]);
        }
        assert(!name_taken(before.descriptors, last.name));
        assert((batch.descriptors + front).push(last) =~= joined);
    }
}

/// Where no name is given twice, every description of every parsed file is
/// kept, and the failures are one for each malformed file.
pub proof fn lemma_with_files_all_kept(batch: BatchView, files: Seq<InputFileView>)
    requires
        distinct_names(batch.descriptors + all_descriptors(files)),
    ensures
        with_files(batch, files) == (BatchView {
            descriptors: batch.descriptors + all_descriptors(files),
            failures: batch.failures + parse_failures(files),
        }),
    decreases files.len(),
{
    let joined = batch.descriptors + all_descriptors(files);
    if files.len() == 0 {
        assert(joined =~= batch.descriptors);
        assert(batch.failures + parse_failures(files) =~= batch.failures);
    } else {
        let front = files.drop_last();
        let kept = batch.descriptors + all_descriptors(front);
        assert forall|i: int, j: int| 0 <= i < j < kept.len() implies (#[trigger] kept[i]).name != (
        #[trigger] kept[j]).name by {
            assert(kept[i] == joined[i]);
            assert(kept[j] == joined[j]);
        }
        lemma_with_files_all_kept(batch, front);
        let before = with_files(batch, front);
        match files.last().content {
            ContentView::Parsed(descriptors) => {
                assert(before.descriptors + descriptors =~= joined);
                lemma_with_descriptors_all_kept(before, descriptors);
                assert(batch.failures + parse_failures(files) =~= before.failures);
            },
            ContentView::Malformed => {
                assert(joined =~= before.descriptors);
                assert(batch.failures + parse_failures(files) =~= before.failures.push(
                    ErrorView::ParseError { file: files.last().path },
                ));
            },
        }
    }
}

/// Where no name is given twice, a load keeps every description of every
/// parsed file and reports each malformed file once, and nothing else.
pub proof fn lemma_collected_without_collisions(files: Seq<InputFileView>)
    requires
        distinct_names(all_descriptors(files)),
    ensures
        collected(files) == (BatchView {
            descriptors: all_descriptors(files),
            failures: parse_failures(files),
        }),
{
    let empty = BatchView { descriptors: Seq::empty(), failures: Seq::empty() };
    assert(empty.descriptors + all_descriptors(files) =~= all_descriptors(files));
    assert(empty.failures + parse_failures(files) =~= parse_failures(files));
    lemma_with_files_all_kept(empty, files);
}

/// The descriptions of two lists of files, one after the other.
pub proof fn lemma_all_descriptors_concat(a: Seq<InputFileView>, b: Seq<InputFileView>)
    ensures
        all_descriptors(a + b) == all_descriptors(a) + all_descriptors(b),
        parse_failures(a + b) == parse_failures(a) + parse_failures(b),
    decreases b.len(),
{
    if b.len() == 0 {
        assert(a + b =~= a);
        assert(all_descriptors(a) + all_descriptors(b) =~= all_descriptors(a));
        assert(parse_failures(a) + parse_failures(b) =~= parse_failures(a));
    } else {
        assert((a + b).drop_last() =~= a + b.drop_last());
        assert((a + b).last() == b.last());
        lemma_all_descriptors_concat(a, b.drop_last());
        assert(all_descriptors(a + b) =~= all_descriptors(a) + all_descriptors(b));
        assert(parse_failures(a + b) =~= parse_failures(a) + parse_failures(b));
    }
}

/// Files that were all parsed give no failure of their own.
pub proof fn lemma_no_parse_failures(files: Seq<InputFileView>)
    requires
        forall|i: int| 0 <= i < files.len() ==> (#[trigger] files[i]).content is Parsed,
    ensures
        parse_failures(files) == Seq::<ErrorView>::empty(),
    decreases files.len(),
{
    if files.len() > 0 {
        let front = files.drop_last();
        assert forall|i: int| 0 <= i < front.len() implies (#[trigger] front[i]).content is Parsed by {
            assert(front[i] == files[i]);
        }
        lemma_no_parse_failures(front);
        assert(files.last() == files[files.len() - 1]);
        assert(parse_failures(files) =~= Seq::<ErrorView>::empty());
    }
}

/// One malformed file among files that were parsed costs nothing but itself:
/// where no name is given twice, the load keeps the descriptions of all the
/// other files, as if the malformed file were not there, and reports exactly
/// one failure, which names that file.
pub proof fn lemma_one_malformed_file(files: Seq<InputFileView>, k: int)
    requires
        0 <= k < files.len(),
        files[k].content is Malformed,
        forall|i: int| 0 <= i < files.len() && i != k ==> (#[trigger] files[i]).content is Parsed,
        distinct_names(all_descriptors(files)),
    ensures
        collected(files).descriptors == all_descriptors(files.remove(k)),
        collected(files).descriptors == collected(files.remove(k)).descriptors,
        collected(files.remove(k)).failures == Seq::<ErrorView>::empty(),
        collected(files).failures == seq![ErrorView::ParseError { file: files[k].path }],
{
    let before = files.take(k);
    let after = files.skip(k + 1);
    let one = seq![files[k]];
    assert(files =~= before + one + after);
    assert(files.remove(k) =~= before + after);
    assert(one.drop_last() =~= Seq::<InputFileView>::empty());
    assert(all_descriptors(one.drop_last()) =~= Seq::<DescriptorView>::empty());
    assert(parse_failures(one.drop_last()) =~= Seq::<ErrorView>::empty());
    assert(all_descriptors(one) =~= Seq::<DescriptorView>::empty());
    assert(parse_failures(one) =~= seq![ErrorView::ParseError { file: files[k].path }]);
    lemma_all_descriptors_concat(before, one);
    lemma_all_descriptors_concat(before + one, after);
    lemma_all_descriptors_concat(before, after);
    lemma_no_parse_failures(before);
    lemma_no_parse_failures(after);
    assert(all_descriptors(files) =~= all_descriptors(files.remove(k)));
    assert(parse_failures(files) =~= seq![ErrorView::ParseError { file: files[k].path }]);
    assert(parse_failures(files.remove(k)) =~= Seq::<ErrorView>::empty());
    lemma_collected_without_collisions(files);
    lemma_collected_without_collisions(files.remove(k));
}

} // verus!
