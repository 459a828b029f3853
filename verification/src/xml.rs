//! Pretty-printing XML with `quick_xml`: every event that the reader yields,
//! with text trimmed, goes to a writer that indents by two spaces.
//!
//! The reader and the writer travel together in an [`XmlReindenter`]. What
//! quick_xml does with a given input is a function of that input and the
//! configuration alone, so its outcomes carry names: [`xml_read`] for the
//! outcome of each read, [`xml_written`] for what the writer holds after a
//! number of the reader's events.

use vstd::prelude::*;
use vstd::utf8::{decode_utf8, encode_utf8, valid_utf8};
use quick_xml::events::Event;
use quick_xml::{Reader, Writer};
use crate::unicode::utf8_string;

verus! {

#[verifier::external_type_specification]
#[verifier::external_body]
pub struct ExXmlError(quick_xml::Error);

#[verifier::external_type_specification]
#[verifier::external_body]
pub struct ExIoError(std::io::Error);

/// Why XML could not be pretty-printed.
#[derive(Debug, Clone, Copy, PartialEq, Eq)]
pub enum ParseError {
    /// The reader rejected the input.
    XmlRead,
    /// The writer failed to write an event.
    XmlWrite,
    /// The writer's output is not valid UTF-8.
    NotUtf8,
    /// The reader yielded more events than its input has bytes.
    TooManyEvents,
}

/// A quick_xml reader over a string, a writer into a byte vector, and the
/// event that has been read and not yet written.
#[verifier::external_body]
pub struct XmlReindenter<'a> {
    reader: Reader<&'a [u8]>,
    writer: Writer<Vec<u8>>,
    pending: Option<Event<'a>>,
}

/// What an [`XmlReindenter`] holds, as plain values: its input, its
/// configuration, and how many events it has read and written.
pub struct ReindentState {
    pub input: Seq<char>,
    pub trim: bool,
    pub indent_char: u8,
    pub indent_size: usize,
    pub reads: nat,
    pub writes: nat,
}

/// The state of a reindenter.
pub uninterp spec fn reindenter_state(p: XmlReindenter) -> ReindentState;

/// The outcome of a reader's read number `k` (counting from zero) over
/// `input`, with text trimming set to `trim`, after its first `k` reads each
/// gave an event: `None` when it fails, `Some(false)` at the end of the
/// input, `Some(true)` when it gives an event.
pub uninterp spec fn xml_read(input: Seq<char>, trim: bool, k: nat) -> Option<bool>;

/// The bytes that a writer indenting by `indent_size` copies of
/// `indent_char`, started on an empty vector, holds after the first `k`
/// events of such a reader have been written to it in order; `None` when one
/// of those writes failed.
pub uninterp spec fn xml_written(
    input: Seq<char>,
    trim: bool,
    indent_char: u8,
    indent_size: usize,
    k: nat,
) -> Option<Seq<u8>>;

/// A reindenter over `input` (`Reader::from_str`, `trim_text` on
/// `Reader::config_mut`, and `Writer::new_with_indent` over an empty vector).
/// The writer slices its indentation string by bytes and grows it by
/// `indent_size` for each open element, so `requires` keeps the indent
/// character ASCII and the indent small enough that no nesting depth an
/// input can reach overflows it (each level takes at least three input
/// bytes).
#[verifier::external_body]
fn xml_reindenter<'a>(input: &'a str, trim: bool, indent_char: u8, indent_size: usize) -> (p:
    XmlReindenter<'a>)
    requires
        indent_char < 128,
        indent_size <= 2,
    ensures
        reindenter_state(p) == (ReindentState {
            input: input@,
            trim,
            indent_char,
            indent_size,
            reads: 0,
            writes: 0,
        }),
        xml_written(input@, trim, indent_char, indent_size, reindenter_state(p).writes) == Some(
            Seq::<u8>::empty(),
        ),
{
    let mut reader = Reader::from_str(input);
    reader.config_mut().trim_text(trim);
    let writer = Writer::new_with_indent(Vec::new(), indent_char, indent_size);
    XmlReindenter { reader, writer, pending: None }
}

/// Reads the next event (`Reader::read_event`) and keeps it for writing:
/// `Ok(true)` for an event, `Ok(false)` at the end of the input.
#[verifier::external_body]
fn read_next<'a>(p: &mut XmlReindenter<'a>) -> (r: Result<bool, quick_xml::Error>)
    requires
        reindenter_state(*old(p)).reads == reindenter_state(*old(p)).writes,
    ensures
        ({
            let s = reindenter_state(*old(p));
            &&& r matches Ok(b) ==> xml_read(s.input, s.trim, s.reads) == Some(b)
            &&& r is Err ==> xml_read(s.input, s.trim, s.reads) is None
            &&& r == Ok::<bool, quick_xml::Error>(true) ==> reindenter_state(*final(p)) == (
            ReindentState { reads: s.reads + 1, ..s })
            &&& r == Ok::<bool, quick_xml::Error>(false) ==> reindenter_state(*final(p)) == s
        }),
{
    match p.reader.read_event() {
        Ok(Event::Eof) => Ok(false),
        Ok(event) => {
            p.pending = Some(event);
            Ok(true)
        },
        Err(e) => Err(e),
    }
}

/// Writes the event that was read last (`Writer::write_event`).
#[verifier::external_body]
fn write_pending<'a>(p: &mut XmlReindenter<'a>) -> (r: Result<(), std::io::Error>)
    requires
        reindenter_state(*old(p)).reads == reindenter_state(*old(p)).writes + 1,
    ensures
        ({
            let s = reindenter_state(*old(p));
            &&& r is Ok <==> xml_written(
                s.input,
                s.trim,
                s.indent_char,
                s.indent_size,
                s.writes + 1,
            ) is Some
            &&& r is Ok ==> reindenter_state(*final(p)) == (ReindentState {
                writes: s.writes + 1,
                ..s
            })
        }),
{
    match p.pending.take() {
        Some(event) => p.writer.write_event(event),
        None => Ok(()),
    }
}

/// The bytes written (`Writer::into_inner`).
#[verifier::external_body]
fn written_bytes<'a>(p: XmlReindenter<'a>) -> (r: Vec<u8>)
    requires
        reindenter_state(p).reads == reindenter_state(p).writes,
    ensures
        ({
            let s = reindenter_state(p);
            xml_written(s.input, s.trim, s.indent_char, s.indent_size, s.writes) matches Some(
                b,
            ) ==> r@ == b
        }),
{
    p.writer.into_inner()
}

/// What re-indenting gives once `k` events have been read and written, with
/// `budget` reads left: the writer's bytes at the end of the input, or the
/// reason it stopped.
pub open spec fn reindent_from(input: Seq<char>, k: nat, budget: nat) -> Result<
    Seq<u8>,
    ParseError,
>
    decreases budget,
{
    if budget == 0 {
        Err(ParseError::TooManyEvents)
    } else {
        match xml_read(input, true, k) {
            None => Err(ParseError::XmlRead),
            Some(false) => match xml_written(input, true, 32u8, 2usize, k) {
                Some(b) => Ok(b),
                None => Err(ParseError::XmlWrite),
            },
            Some(true) => if xml_written(input, true, 32u8, 2usize, k + 1) is None {
                Err(ParseError::XmlWrite)
            } else {
                reindent_from(input, k + 1, (budget - 1) as nat)
            },
        }
    }
}

/// The pretty-printed form of `input`: its events read with text trimmed
/// and written indented by two spaces, at most one read more than `input`
/// has UTF-8 bytes (its `str::len`), as text; or why that failed.
pub open spec fn xml_reindent(input: Seq<char>) -> Result<Seq<char>, ParseError> {
    match reindent_from(input, 0, ((encode_utf8(input).len() as usize) + 1) as nat) {
        Ok(b) => if valid_utf8(b) {
            Ok(decode_utf8(b))
        } else {
            Err(ParseError::NotUtf8)
        },
        Err(e) => Err(e),
    }
}

/// Re-indents XML: reads every event of `input` with text trimmed and writes
/// it with nested elements indented by two spaces.
///
/// quick_xml's slice reader consumes at least one byte of input for every
/// event but the end, so the reader is asked at most one time more than
/// `input` has bytes; past that the function gives up with `TooManyEvents`.
pub fn pretty_print_xml(input: &str) -> (r: Result<String, ParseError>)
    ensures
        match xml_reindent(input@) {
            Ok(t) => r matches Ok(s) && s@ == t,
            Err(e) => r == Err::<String, ParseError>(e),
        },
{
    let ghost budget: nat = ((encode_utf8(input@).len() as usize) + 1) as nat;
    let mut reads_left: u128 = input.len() as u128 + 1;
    assert(reads_left == budget);
    let mut p = xml_reindenter(input, true, 32u8, 2);
    loop
        invariant_except_break
            budget == (encode_utf8(input@).len() as usize) + 1,
            reads_left <= budget,
            reindenter_state(p).input == input@,
            reindenter_state(p).trim,
            reindenter_state(p).indent_char == 32u8,
            reindenter_state(p).indent_size == 2usize,
            reindenter_state(p).reads == reindenter_state(p).writes,
            xml_written(input@, true, 32u8, 2usize, reindenter_state(p).writes) is Some,
            reindent_from(input@, reindenter_state(p).writes, reads_left as nat) == reindent_from(
                input@,
                0,
                budget,
            ),
        ensures
            budget == (encode_utf8(input@).len() as usize) + 1,
            reindenter_state(p).reads == reindenter_state(p).writes,
            reindenter_state(p).input == input@,
            reindenter_state(p).trim,
            reindenter_state(p).indent_char == 32u8,
            reindenter_state(p).indent_size == 2usize,
            xml_written(input@, true, 32u8, 2usize, reindenter_state(p).writes) matches Some(b)
                && reindent_from(input@, 0, budget) == Ok::<Seq<u8>, ParseError>(b),
        decreases reads_left,
    {
        if reads_left == 0 {
            return Err(ParseError::TooManyEvents);
        }
        let ghost k = reindenter_state(p).writes;
        let ghost left = reads_left as nat;
        assert(reindent_from(input@, k, left) == match xml_read(input@, true, k) {
            None => Err(ParseError::XmlRead),
            Some(false) => match xml_written(input@, true, 32u8, 2usize, k) {
                Some(b) => Ok(b),
                None => Err(ParseError::XmlWrite),
            },
            Some(true) => if xml_written(input@, true, 32u8, 2usize, k + 1) is None {
                Err(ParseError::XmlWrite)
            } else {
                reindent_from(input@, k + 1, (left - 1) as nat)
            },
        });
        reads_left = reads_left - 1;
        match read_next(&mut p) {
            Err(_) => {
                return Err(ParseError::XmlRead);
            },
            Ok(false) => {
                break ;
            },
            Ok(true) => {
                if write_pending(&mut p).is_err() {
                    return Err(ParseError::XmlWrite);
                }
            },
        }
    }
    let bytes = written_bytes(p);
    match utf8_string(bytes.as_slice()) {
        Some(s) => Ok(s),
        None => Err(ParseError::NotUtf8),
    }
}

} // verus!
