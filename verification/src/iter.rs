//! Chunks of a byte stream, delimited by a regular expression.
//!
//! The chunker owns the bytes that were read and not yet handed out. It never
//! reads by itself: `next` says when a read is needed, and the caller reports
//! what the read gave with `feed` or `read_failed`.

use vstd::prelude::*;
use vstd::string::*;
use crate::fence::{
    compile, compile_diagnostic, delimiter_at, diagnostic, find, pattern_compiles, Fence,
};

verus! {

/// Size of the buffer that a caller should read into.
pub const READ_BUFF_SIZE: usize = 1024;

/// Where a chunker stands.
#[derive(Clone, Copy, Debug)]
pub enum Phase {
    /// The buffer holds no delimiter: more input is needed.
    AwaitingData,
    /// The buffer may hold a delimiter: it is scanned before any read.
    HasPendingMatch,
    /// A read has failed. Nothing more comes out.
    Errored,
    /// The input has ended and the last item is out.
    Exhausted,
}

/// Why a read gave no bytes.
#[derive(Clone, Copy, Debug)]
pub enum ReadFailure {
    /// The source has nothing for now.
    WouldBlock,
    /// The read was interrupted before it got any byte.
    Interrupted,
    /// Anything else.
    Other,
}

/// What one step of a chunker gives.
#[derive(Debug)]
pub enum Step {
    /// Read from the source and report the result.
    NeedRead,
    /// The next item.
    Item(Vec<u8>),
    /// The source has failed; this is the message.
    Failed(String),
    /// No more items.
    Finished,
}

/// A `Step` as mathematical values.
pub enum StepView {
    NeedRead,
    Item(Seq<u8>),
    Failed(Seq<char>),
    Finished,
}

impl View for Step {
    type V = StepView;

    open spec fn view(&self) -> StepView {
        match self {
            Step::NeedRead => StepView::NeedRead,
            Step::Item(bytes) => StepView::Item(bytes@),
            Step::Failed(msg) => StepView::Failed(msg@),
            Step::Finished => StepView::Finished,
        }
    }
}

/// A chunker as mathematical values.
pub struct ChunkerView {
    /// The delimiter pattern.
    pub pattern: Seq<char>,
    /// The bytes read and not yet handed out.
    pub buffer: Seq<u8>,
    /// Where the chunker stands.
    pub phase: Phase,
}

/// The result of a step in the model: the state after it, what it gives, and
/// the delimiter bytes it dropped.
pub struct Transition {
    /// The chunker after the step.
    pub state: ChunkerView,
    /// What the caller gets.
    pub step: StepView,
    /// The bytes of the delimiter behind the item, which nobody gets.
    pub delimiter: Seq<u8>,
}

impl ChunkerView {
    /// A chunker that has read nothing.
    pub open spec fn fresh(pattern: Seq<char>) -> ChunkerView {
        ChunkerView { pattern, buffer: Seq::empty(), phase: Phase::AwaitingData }
    }

    /// Neither failed nor at its end.
    pub open spec fn live(self) -> bool {
        self.phase is AwaitingData || self.phase is HasPendingMatch
    }

    /// A step that gives `step` and leaves the state as it is.
    pub open spec fn stay(self, step: StepView) -> Transition {
        Transition { state: self, step, delimiter: Seq::empty() }
    }

    /// Looks for a delimiter in the buffer. With one, the bytes before it are
    /// the item, the bytes after it stay, and the delimiter is dropped.
    /// Without one, more input is needed.
    pub open spec fn scan(self) -> Transition {
        match delimiter_at(self.pattern, self.buffer) {
            Some((start, end)) => Transition {
                state: ChunkerView {
                    buffer: self.buffer.skip(end),
                    phase: Phase::HasPendingMatch,
                    ..self
                },
                step: StepView::Item(self.buffer.take(start)),
                delimiter: self.buffer.subrange(start, end),
            },
            None => Transition {
                state: ChunkerView { phase: Phase::AwaitingData, ..self },
                step: StepView::NeedRead,
                delimiter: Seq::empty(),
            },
        }
    }

    /// The end of the input: what is left in the buffer is the last item,
    /// unless nothing is left.
    pub open spec fn close(self) -> Transition {
        let state = ChunkerView { buffer: Seq::empty(), phase: Phase::Exhausted, ..self };
        Transition {
            state,
            step: if self.buffer.len() == 0 {
                StepView::Finished
            } else {
                StepView::Item(self.buffer)
            },
            delimiter: Seq::empty(),
        }
    }

    /// A pull without input.
    pub open spec fn next(self) -> Transition {
        match self.phase {
            Phase::Errored | Phase::Exhausted => self.stay(StepView::Finished),
            Phase::AwaitingData => self.stay(StepView::NeedRead),
            Phase::HasPendingMatch => self.scan(),
        }
    }

    /// A read that gave `data`; no bytes means that the input has ended.
    /// The bytes join the buffer, which is scanned. At the end of the input
    /// a chunker that has scanned its buffer already hands out what is left
    /// of it.
    pub open spec fn feed(self, data: Seq<u8>) -> Transition {
        if !self.live() {
            self.stay(StepView::Finished)
        } else if data.len() == 0 && self.phase is AwaitingData {
            self.close()
        } else {
            let grown = ChunkerView { buffer: self.buffer + data, ..self };
            if data.len() == 0 && delimiter_at(self.pattern, grown.buffer) is None {
                grown.close()
            } else {
                grown.scan()
            }
        }
    }

    /// A read that failed. One that would block or was interrupted is tried
    /// again; any other ends the chunker with a message.
    pub open spec fn read_failed(self, failure: ReadFailure, cause: Seq<char>) -> Transition {
        if !self.live() {
            self.stay(StepView::Finished)
        } else if failure is Other {
            Transition {
                state: ChunkerView { phase: Phase::Errored, ..self },
                step: StepView::Failed(read_error_text(cause)),
                delimiter: Seq::empty(),
            }
        } else {
            self.stay(StepView::NeedRead)
        }
    }
}

/// The message for a pattern that does not compile.
pub open spec fn invalid_pattern_text(pattern: Seq<char>, diagnostic: Seq<char>) -> Seq<char> {
    "invalid regex pattern \""@ + pattern + "\": "@ + diagnostic
}

/// The message for a read that failed.
pub open spec fn read_error_text(cause: Seq<char>) -> Seq<char> {
    "error reading input: "@ + cause
}

/// Writes the message for a pattern that does not compile.
pub fn invalid_pattern_message(pattern: &str, diagnostic: &str) -> (msg: String)
    ensures
        msg@ == invalid_pattern_text(pattern@, diagnostic@),
{
    let mut msg = String::from_str("invalid regex pattern \"");
    msg.append(pattern);
    msg.append("\": ");
    msg.append(diagnostic);
    msg
}

/// Writes the message for a read that failed.
pub fn read_error_message(cause: &str) -> (msg: String)
    ensures
        msg@ == read_error_text(cause@),
{
    let mut msg = String::from_str("error reading input: ");
    msg.append(cause);
    msg
}

/// Cuts a byte stream into items at the matches of a delimiter pattern.
pub struct RegexChunker {
    fence: Fence,
    search_buff: Vec<u8>,
    phase: Phase,
}

impl View for RegexChunker {
    type V = ChunkerView;

    closed spec fn view(&self) -> ChunkerView {
        ChunkerView {
            pattern: self.fence@,
            buffer: self.search_buff@,
            phase: self.phase,
        }
    }
}

impl RegexChunker {
    /// A chunker for the delimiter pattern `fence`. The pattern is compiled
    /// here. A chunker comes back for every pattern that compiles, and has
    /// read nothing; any other pattern is refused at once, with its text and
    /// the compiler's diagnostic.
    pub fn new(fence: &str) -> (made: Result<RegexChunker, String>)
        ensures
            made is Ok <==> pattern_compiles(fence@),
            made matches Ok(chunker) ==> chunker@ == ChunkerView::fresh(fence@),
            made matches Err(msg) ==> msg@ == invalid_pattern_text(
                fence@,
                compile_diagnostic(fence@),
            ),
    {
        match compile(fence) {
            Ok(re) => Ok(RegexChunker::with_fence(re)),
            Err(e) => {
                let text = diagnostic(&e);
                Err(invalid_pattern_message(fence, text.as_str()))
            },
        }
    }

    /// A chunker around a pattern that is compiled already.
    pub(crate) fn with_fence(fence: Fence) -> (chunker: RegexChunker)
        ensures
            chunker@ == ChunkerView::fresh(fence@),
    {
        RegexChunker { fence, search_buff: Vec::new(), phase: Phase::AwaitingData }
    }

    /// Ends the chunker after a failure that the caller has found.
    pub(crate) fn abort(&mut self)
        ensures
            final(self)@ == (ChunkerView { phase: Phase::Errored, ..old(self)@ }),
    {
        self.phase = Phase::Errored;
    }

    /// Looks for the first delimiter in the buffer. Hands out the bytes
    /// before it and keeps those after it.
    fn scan_search_buffer(&mut self) -> (step: Step)
        ensures
            final(self)@ == old(self)@.scan().state,
            step@ == old(self)@.scan().step,
    {
        let found = find(&self.fence, self.search_buff.as_slice());
        match found {
            Some((start, end)) => {
                if end > 0 {
                    let mut item = self.search_buff.split_off(end);
                    self.search_buff.truncate(start);
                    std::mem::swap(&mut item, &mut self.search_buff);
                    self.phase = Phase::HasPendingMatch;
                    assert(item@ =~= old(self)@.buffer.take(start as int));
                    Step::Item(item)
                } else {
                    self.phase = Phase::AwaitingData;
                    Step::NeedRead
                }
            },
            None => {
                self.phase = Phase::AwaitingData;
                Step::NeedRead
            },
        }
    }

    /// Hands out what is left in the buffer, at the end of the input.
    fn close(&mut self) -> (step: Step)
        ensures
            final(self)@ == old(self)@.close().state,
            step@ == old(self)@.close().step,
    {
        self.phase = Phase::Exhausted;
        if self.search_buff.len() == 0 {
            assert(self.search_buff@ =~= Seq::<u8>::empty());
            Step::Finished
        } else {
            let mut last: Vec<u8> = Vec::new();
            std::mem::swap(&mut self.search_buff, &mut last);
            Step::Item(last)
        }
    }

    /// The next item, as far as it can be had without reading.
    pub fn next(&mut self) -> (step: Step)
        ensures
            final(self)@ == old(self)@.next().state,
            step@ == old(self)@.next().step,
    {
        match self.phase {
            Phase::Errored => Step::Finished,
            Phase::Exhausted => Step::Finished,
            Phase::AwaitingData => Step::NeedRead,
            Phase::HasPendingMatch => self.scan_search_buffer(),
        }
    }

    /// Takes the bytes of one read. No bytes means that the input has ended.
    pub fn feed(&mut self, data: &[u8]) -> (step: Step)
        ensures
            final(self)@ == old(self)@.feed(data@).state,
            step@ == old(self)@.feed(data@).step,
    {
        match self.phase {
            Phase::Errored => Step::Finished,
            Phase::Exhausted => Step::Finished,
            Phase::AwaitingData => {
                if data.len() == 0 {
                    self.close()
                } else {
                    self.search_buff.extend_from_slice(data);
                    assert(self.search_buff@ =~= old(self)@.buffer + data@);
                    self.scan_search_buffer()
                }
            },
            Phase::HasPendingMatch => {
                self.search_buff.extend_from_slice(data);
                assert(self.search_buff@ =~= old(self)@.buffer + data@);
                let step = self.scan_search_buffer();
                if data.len() == 0 {
                    match step {
                        Step::NeedRead => self.close(),
                        other => other,
                    }
                } else {
                    step
                }
            },
        }
    }

    /// Takes the failure of one read, with the text of its cause.
    pub fn read_failed(&mut self, failure: ReadFailure, cause: &str) -> (step: Step)
        ensures
            final(self)@ == old(self)@.read_failed(failure, cause@).state,
            step@ == old(self)@.read_failed(failure, cause@).step,
    {
        match self.phase {
            Phase::Errored => Step::Finished,
            Phase::Exhausted => Step::Finished,
            _ => match failure {
                ReadFailure::WouldBlock => Step::NeedRead,
                ReadFailure::Interrupted => Step::NeedRead,
                ReadFailure::Other => {
                    self.phase = Phase::Errored;
                    Step::Failed(read_error_message(cause))
                },
            },
        }
    }
}

} // verus!
