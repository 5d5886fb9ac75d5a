//! What can go wrong in a run, and how it is told to the operator.

use vstd::prelude::*;

verus! {

/// A failure of a run. `InvalidInputPath` and, for a single input file,
/// `ParseError` end the run; every other failure concerns one file or one
/// service and leaves the others alone.
#[derive(Debug, Clone, PartialEq, Eq)]
pub enum DeployError {
    /// The input path is neither a file nor a directory.
    InvalidInputPath,
    /// The file does not hold a mapping of service descriptions.
    ParseError { file: String },
    /// A field of the service holds a value of the wrong shape, or is given twice.
    InvalidFieldValue { descriptor: String, field: String },
    /// The name was already taken by a service loaded before.
    DuplicateName { name: String },
    /// The unit file was written, but the service could not be enabled and started.
    ActivationError { descriptor: String },
    /// The target directory could not be made or the unit file could not be written.
    IOError { descriptor: String },
}

/// A failure as a mathematical value.
pub enum ErrorView {
    InvalidInputPath,
    ParseError { file: Seq<char> },
    InvalidFieldValue { descriptor: Seq<char>, field: Seq<char> },
    DuplicateName { name: Seq<char> },
    ActivationError { descriptor: Seq<char> },
    IOError { descriptor: Seq<char> },
}

impl View for DeployError {
    type V = ErrorView;

    open spec fn view(&self) -> ErrorView {
        match self {
            DeployError::InvalidInputPath => ErrorView::InvalidInputPath,
            DeployError::ParseError { file } => ErrorView::ParseError { file: file@ },
            DeployError::InvalidFieldValue { descriptor, field } => ErrorView::InvalidFieldValue {
                descriptor: descriptor@,
                field: field@,
            },
            DeployError::DuplicateName { name } => ErrorView::DuplicateName { name: name@ },
            DeployError::ActivationError { descriptor } => ErrorView::ActivationError {
                descriptor: descriptor@,
            },
            DeployError::IOError { descriptor } => ErrorView::IOError { descriptor: descriptor@ },
        }
    }
}

/// The sentence that reports `e`.
pub open spec fn message_text(e: ErrorView) -> Seq<char> {
    match e {
        ErrorView::InvalidInputPath => "the configuration path is neither a file nor a directory"@,
        ErrorView::ParseError { file } => "cannot read service descriptions from '"@ + file + "'"@,
        ErrorView::InvalidFieldValue { descriptor, field } => "service '"@ + descriptor
            + "': the value of '"@ + field + "' is not valid"@,
        ErrorView::DuplicateName { name } => "service '"@ + name + "' is declared more than once"@,
        ErrorView::ActivationError { descriptor } => "service '"@ + descriptor
            + "' could not be enabled and started"@,
        ErrorView::IOError { descriptor } => "service '"@ + descriptor
            + "': the unit file could not be written"@,
    }
}

impl DeployError {
    /// The sentence that reports this failure.
    pub fn message(&self) -> (text: String)
        ensures
            text@ == message_text(self@),
    {
        match self {
            DeployError::InvalidInputPath => String::from_str(
                "the configuration path is neither a file nor a directory",
            ),
            DeployError::ParseError { file } => {
                let mut text = String::from_str("cannot read service descriptions from '");
                text.append(file.as_str());
                text.append("'");
                text
            },
            DeployError::InvalidFieldValue { descriptor, field } => {
                let mut text = String::from_str("service '");
                text.append(descriptor.as_str());
                text.append("': the value of '");
                text.append(field.as_str());
                text.append("' is not valid");
                text
            },
            DeployError::DuplicateName { name } => {
                let mut text = String::from_str("service '");
                text.append(name.as_str());
                text.append("' is declared more than once");
                text
            },
            DeployError::ActivationError { descriptor } => {
                let mut text = String::from_str("service '");
                text.append(descriptor.as_str());
                text.append("' could not be enabled and started");
                text
            },
            DeployError::IOError { descriptor } => {
                let mut text = String::from_str("service '");
                text.append(descriptor.as_str());
                text.append("': the unit file could not be written");
                text
            },
        }
    }
}

/// The failures of a list as mathematical values.
pub open spec fn failure_views(failures: Seq<DeployError>) -> Seq<ErrorView> {
    failures.map_values(|e: DeployError| e@)
}

/// The sentences that report the failures of a run, one on each line, in the
/// order in which the failures were met.
pub open spec fn summary_text(failures: Seq<ErrorView>) -> Seq<char>
    decreases failures.len(),
{
    if failures.len() == 0 {
        Seq::empty()
    } else {
        summary_text(failures.drop_last()) + message_text(failures.last()) + seq!['\n']
    }
}

/// Writes the sentences that report the failures of a run.
pub fn failure_summary(failures: &Vec<DeployError>) -> (text: String)
    ensures
        text@ == summary_text(failure_views(failures@)),
{
    let ghost all = failure_views(failures@);
    let mut text = String::new();
    let mut i: usize = 0;
    assert(all.take(0) =~= Seq::<ErrorView>::empty());
    while i < failures.len()
        invariant
            i <= failures.len(),
            all == failure_views(failures@),
            text@ == summary_text(all.take(i as int)),
        decreases failures.len() - i,
    {
        assert(all.take(i + 1).drop_last() =~= all.take(i as int));
        assert(all.take(i + 1).last() == failures@[i as int]@);
        let message = failures[i].message();
        text.append(message.as_str());
        text.append("\n");
        proof {
            reveal_strlit("\n");
            assert("\n"@ =~= seq!['\n']);
        }
        i += 1;
    }
    assert(all.take(i as int) =~= all);
    text
}

} // verus!
