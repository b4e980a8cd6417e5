use crate::error::{bytes_of, kind_text, Error};
use crate::lexer::{lex, tokenize};
use crate::output::{text_of, Codeblock, Output, OutputKind};
use crate::parser::{Parser, State};
use crate::position::{is_boundary, text_bytes, PartialSpan};
use std::sync::Arc;
use vstd::prelude::*;
use vstd::string::*;

verus! {

impl Parser {
    /// A parser at the first token of `source_text`. `filename` names the
    /// text in the diagnostics.
    pub fn new(source_text: Arc<String>, filename: String) -> (result: Parser)
        ensures
            result.wf(),
            result.source == source_text,
            result.filename == filename,
            result.tokens@ == lex(text_bytes(&source_text), 0),
            result.state() == (State {
                position: 0,
                errors: Seq::empty(),
                unclosed: Seq::empty(),
            }),
    {
        let tokens = tokenize(source_text.as_str());
        Parser::from_tokens(source_text, filename, tokens)
    }

    /// The text that is read.
    pub fn source(&self) -> (result: &str)
        ensures
            result@ == (*self.source)@,
    {
        self.source.as_str()
    }

    /// Whether `error` can be shown: its place lies in the text between
    /// characters, and its message is text.
    pub open spec fn shows(&self, error: Error) -> bool {
        let bytes = text_bytes(&self.source);
        &&& error.location.start <= error.location.end
        &&& is_boundary(bytes, error.location.start as int)
        &&& is_boundary(bytes, error.location.end as int)
        &&& bytes.len() < usize::MAX
        &&& vstd::utf8::valid_utf8(kind_text(error.kind, bytes))
    }

    /// `error` as a message to show: an error with the words for its kind,
    /// and the lines of its place with carets under the place. `None` where
    /// it cannot be shown.
    pub fn report(&self, error: &Error) -> (result: Option<Output>)
        ensures
            result is Some <==> self.shows(*error),
            result matches Some(output) ==> {
                &&& output.wf()
                &&& output.fits()
                &&& output.kind == OutputKind::Error
                &&& bytes_of(output.message@) == kind_text(error.kind, text_bytes(&self.source))
                &&& output.context matches Some(block) && block.input == self.source
                    && block.filename@ == self.filename@ && block.span.start
                    == error.location.start && block.span.end == error.location.end
                    && block.underline() == Some(
                    (error.location.start as int, error.location.end as int),
                )
            },
    {
        let place = PartialSpan::new(error.location.start, error.location.end);
        let span = match place.upgrade(&self.source) {
            Some(span) => span,
            None => {
                return None;
            },
        };
        let underline = match place.upgrade(&self.source) {
            Some(span) => span,
            None => {
                return None;
            },
        };
        let words = error.kind.describe(self.source.as_str().as_bytes());
        let message = match text_of(words) {
            Some(message) => message,
            None => {
                return None;
            },
        };
        let block = Codeblock {
            input: crate::position::share(&self.source),
            span,
            underline_span: Some(underline),
            filename: self.filename.clone(),
        };
        Some(Output { kind: OutputKind::Error, message, context: Some(block) })
    }
}

} // verus!
