//! Chunks of a byte stream as text. The delimiter is still matched on
//! bytes, but every item must be valid UTF-8: one that is not ends the
//! chunker.

use vstd::prelude::*;
use vstd::string::*;
use vstd::utf8::{decode_utf8, valid_utf8};
use crate::fence::{compile, compile_diagnostic, diagnostic, pattern_compiles};
use crate::iter::{ChunkerView, Phase, ReadFailure, Step, StepView, Transition};

verus! {

/// What one step of a text chunker gives.
#[derive(Debug)]
pub enum TextStep {
    /// Read from the source and report the result.
    NeedRead,
    /// The next item.
    Item(String),
    /// The source has failed or an item is not valid UTF-8; this is the
    /// message.
    Failed(String),
    /// No more items.
    Finished,
}

/// A `TextStep` as mathematical values.
pub enum TextStepView {
    NeedRead,
    Item(Seq<char>),
    Failed(Seq<char>),
    Finished,
}

impl View for TextStep {
    type V = TextStepView;

    open spec fn view(&self) -> TextStepView {
        match self {
            TextStep::NeedRead => TextStepView::NeedRead,
            TextStep::Item(text) => TextStepView::Item(text@),
            TextStep::Failed(msg) => TextStepView::Failed(msg@),
            TextStep::Finished => TextStepView::Finished,
        }
    }
}

/// The message for a pattern that does not compile.
pub open spec fn invalid_pattern_text(pattern: Seq<char>, diagnostic: Seq<char>) -> Seq<char> {
    "Invalid regex pattern \""@ + pattern + "\": "@ + diagnostic
}

/// The message for an item that is not valid UTF-8.
pub open spec fn invalid_utf8_text(diagnostic: Seq<char>) -> Seq<char> {
    "input not valid UTF-8: "@ + diagnostic
}

/// Whether a step of the byte chunker hands out an item that is not text.
pub open spec fn breaks_on(t: Transition) -> bool {
    t.step matches StepView::Item(bytes) && !valid_utf8(bytes)
}

/// The state after a step whose item, if any, has been decoded: that of the
/// byte chunker, or the failed state where the item is not text.
pub open spec fn state_after(t: Transition) -> ChunkerView {
    if breaks_on(t) {
        ChunkerView { phase: Phase::Errored, ..t.state }
    } else {
        t.state
    }
}

/// Whether `step` is what a text chunker gives for the step `t` of the byte
/// chunker below it: the same, with the item decoded, or a failure where the
/// item is not text.
pub open spec fn decodes(t: Transition, step: TextStepView) -> bool {
    match t.step {
        StepView::NeedRead => step == TextStepView::NeedRead,
        StepView::Finished => step == TextStepView::Finished,
        StepView::Failed(msg) => step == TextStepView::Failed(msg),
        StepView::Item(bytes) => if valid_utf8(bytes) {
            step == TextStepView::Item(decode_utf8(bytes))
        } else {
            exists|diagnostic: Seq<char>|
                step == TextStepView::Failed(invalid_utf8_text(diagnostic))
        },
    }
}

/// `std::string::FromUtf8Error`, opaque to the verifier.
#[verifier::external_type_specification]
#[verifier::external_body]
pub struct ExFromUtf8Error(std::string::FromUtf8Error);

/// Calls `String::from_utf8`, which succeeds on valid UTF-8 and on nothing
/// else, and then gives the text that the bytes encode.
#[verifier::external_body]
fn from_utf8(bytes: Vec<u8>) -> (res: Result<String, std::string::FromUtf8Error>)
    ensures
        res is Ok <==> valid_utf8(bytes@),
        res matches Ok(text) ==> text@ == decode_utf8(bytes@),
{
    String::from_utf8(bytes)
}

/// The text of a decoding error, as its `Display` impl writes it. Nothing
/// is claimed of it.
#[verifier::external_body]
fn utf8_diagnostic(e: &std::string::FromUtf8Error) -> (text: String) {
    format!("{}", e)
}

/// Writes the message for a pattern that does not compile.
pub fn invalid_pattern_message(pattern: &str, diagnostic: &str) -> (msg: String)
    ensures
        msg@ == invalid_pattern_text(pattern@, diagnostic@),
{
    let mut msg = String::from_str("Invalid regex pattern \"");
    msg.append(pattern);
    msg.append("\": ");
    msg.append(diagnostic);
    msg
}

/// Writes the message for an item that is not valid UTF-8.
pub fn invalid_utf8_message(diagnostic: &str) -> (msg: String)
    ensures
        msg@ == invalid_utf8_text(diagnostic@),
{
    let mut msg = String::from_str("input not valid UTF-8: ");
    msg.append(diagnostic);
    msg
}

/// Decodes the bytes of one item.
pub fn decode(bytes: Vec<u8>) -> (res: Result<String, String>)
    ensures
        res is Ok <==> valid_utf8(bytes@),
        res matches Ok(text) ==> text@ == decode_utf8(bytes@),
        res matches Err(msg) ==> exists|diagnostic: Seq<char>|
            msg@ == invalid_utf8_text(diagnostic),
{
    match from_utf8(bytes) {
        Ok(text) => Ok(text),
        Err(e) => {
            let cause = utf8_diagnostic(&e);
            Err(invalid_utf8_message(cause.as_str()))
        },
    }
}

/// Cuts a byte stream into items of text at the matches of a delimiter
/// pattern.
pub struct RegexChunker {
    bytes: crate::iter::RegexChunker,
}

impl View for RegexChunker {
    type V = ChunkerView;

    closed spec fn view(&self) -> ChunkerView {
        self.bytes@
    }
}

impl RegexChunker {
    /// A chunker for the delimiter pattern `fence`. The pattern is compiled
    /// here. A chunker comes back for every pattern that compiles, and has
    /// read nothing; any other pattern is refused at once, with its text and
    /// the compiler's diagnostic.
    pub fn new(fence: &str) -> (made: Result<RegexChunker, String>)
        ensures
            made is Ok <==> pattern_compiles(fence@),
            made matches Ok(chunker) ==> chunker@ == ChunkerView::fresh(fence@),
            made matches Err(msg) ==> msg@ == invalid_pattern_text(
                fence@,
                compile_diagnostic(fence@),
            ),
    {
        match compile(fence) {
            Ok(re) => Ok(RegexChunker { bytes: crate::iter::RegexChunker::with_fence(re) }),
            Err(e) => {
                let text = diagnostic(&e);
                Err(invalid_pattern_message(fence, text.as_str()))
            },
        }
    }

    /// Decodes the item of a step, and ends the chunker where it is not
    /// text.
    fn pass(&mut self, step: Step, Ghost(t): Ghost<Transition>) -> (out: TextStep)
        requires
            old(self)@ == t.state,
            step@ == t.step,
        ensures
            final(self)@ == state_after(t),
            decodes(t, out@),
    {
        match step {
            Step::NeedRead => TextStep::NeedRead,
            Step::Finished => TextStep::Finished,
            Step::Failed(msg) => TextStep::Failed(msg),
            Step::Item(bytes) => match decode(bytes) {
                Ok(text) => TextStep::Item(text),
                Err(msg) => {
                    self.bytes.abort();
                    TextStep::Failed(msg)
                },
            },
        }
    }

    /// The next item, as far as it can be had without reading.
    pub fn next(&mut self) -> (step: TextStep)
        ensures
            final(self)@ == state_after(old(self)@.next()),
            decodes(old(self)@.next(), step@),
    {
        let raw = self.bytes.next();
        self.pass(raw, Ghost(old(self)@.next()))
    }

    /// Takes the bytes of one read. No bytes means that the input has ended.
    pub fn feed(&mut self, data: &[u8]) -> (step: TextStep)
        ensures
            final(self)@ == state_after(old(self)@.feed(data@)),
            decodes(old(self)@.feed(data@), step@),
    {
        let raw = self.bytes.feed(data);
        self.pass(raw, Ghost(old(self)@.feed(data@)))
    }

    /// Takes the failure of one read, with the text of its cause.
    pub fn read_failed(&mut self, failure: ReadFailure, cause: &str) -> (step: TextStep)
        ensures
            final(self)@ == state_after(old(self)@.read_failed(failure, cause@)),
            decodes(old(self)@.read_failed(failure, cause@), step@),
    {
        let raw = self.bytes.read_failed(failure, cause);
        self.pass(raw, Ghost(old(self)@.read_failed(failure, cause@)))
    }
}

} // verus!
