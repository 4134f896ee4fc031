//! Reading one line of text and parsing it into a typed value.
//!
//! The crate models the text side of a prompted read: trimming white space
//! from a raw input line and parsing the trimmed text into a target type,
//! with a two-variant error that separates input/output failures from
//! malformed text.

pub mod chars;
pub mod numbers;
pub mod target;
pub mod trim;

use vstd::prelude::*;

use crate::target::TextParsable;
use crate::trim::all_space;
use crate::trim::lemma_trim_surrounding_space;
use crate::trim::trim_line;
use crate::trim::trim_spec;

verus! {

/// The failure of one prompted read.
#[derive(Debug)]
pub enum ReadError {
    /// The input or output stream failed while prompting or reading.
    Io(std::io::Error),
    /// The line that was read does not fit the target type's grammar.
    Parse,
}

/// Relies on `std::io::Error` existing as a type; nothing is assumed of its
/// values, they are only carried through.
#[verifier::external_type_specification]
#[verifier::external_body]
pub struct ExIoError(std::io::Error);

/// What a prompted read writes to the output stream before reading: the
/// prompt itself when it is non-empty, and nothing at all otherwise — an
/// empty prompt causes no write, not even of an empty string.
pub fn prompt_to_write(prompt: &str) -> (r: Option<&str>)
    ensures
        prompt@.len() == 0 ==> r is None,
        prompt@.len() > 0 ==> (r matches Some(p) && p@ == prompt@),
{
    if prompt.is_empty() {
        None
    } else {
        Some(prompt)
    }
}

/// Trims `line` and parses the trimmed text into `T`, accepting exactly the
/// lines whose trimmed text fits `T`'s grammar. The only error it ever
/// returns is `Parse`.
pub fn parse_line<T: TextParsable>(line: &str) -> (r: Result<T, ReadError>)
    ensures
        r is Ok <==> T::text_valid(trim_spec(line@)),
        r matches Ok(v) ==> v.deep_view() == T::text_value(trim_spec(line@)),
        r is Err ==> r->Err_0 is Parse,
{
    let t = trim_line(line);
    match T::parse_text(t.as_str()) {
        Some(v) => Ok(v),
        None => Err(ReadError::Parse),
    }
}

/// Completes a prompted read from the outcome of the line read itself. A
/// failed read surfaces as `Io` carrying the stream's own error and the text
/// is never looked at; a line that was read is trimmed and parsed, and a
/// line outside `T`'s grammar gives `Parse`.
pub fn finish_read<T: TextParsable>(line_read: Result<String, std::io::Error>) -> (r: Result<
    T,
    ReadError,
>)
    ensures
        line_read matches Ok(line) ==> {
            &&& r is Ok <==> T::text_valid(trim_spec(line@))
            &&& (r matches Ok(v) ==> v.deep_view() == T::text_value(trim_spec(line@)))
            &&& (r is Err ==> r->Err_0 is Parse)
        },
        line_read matches Err(e) ==> r == Result::<T, ReadError>::Err(ReadError::Io(e)),
{
    match line_read {
        Ok(line) => parse_line(line.as_str()),
        Err(e) => Err(ReadError::Io(e)),
    }
}

/// Law: a line that is its own trimmed form and fits the target's grammar
/// keeps its validity and its denoted value when white space is put around
/// it — in particular when the terminating newline is still attached. With
/// the contract of `parse_line`, such a line always parses to exactly the
/// value it denotes.
pub proof fn lemma_grammatical_line_parses<T: TextParsable>(
    lead: Seq<char>,
    t: Seq<char>,
    tail: Seq<char>,
)
    requires
        all_space(lead),
        all_space(tail),
        trim_spec(t) == t,
    ensures
        T::text_valid(trim_spec(lead + t + tail)) == T::text_valid(t),
        T::text_value(trim_spec(lead + t + tail)) == T::text_value(t),
{
    lemma_trim_surrounding_space(lead, t, tail);
}

} // verus!
