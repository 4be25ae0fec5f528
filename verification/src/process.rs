//! What a run of the engine leaves behind besides the file it writes: the two
//! captured streams and the exit status.

use vstd::prelude::*;
use vstd::utf8::{decode_utf8, valid_utf8};
use crate::text::{append_chars, chars_of, cut, line_spans, lines, push_char};

verus! {

/// The captured streams and the exit status of a finished process.
#[derive(Debug)]
pub struct InvocationResult {
    /// What the process wrote to its standard output.
    pub stdout: Vec<u8>,
    /// What the process wrote to its standard error.
    pub stderr: Vec<u8>,
    /// The exit code; `None` when the process was ended by a signal.
    pub status: Option<i32>,
}

/// `String::from_utf8` on a copy of `bytes`: the text that the bytes encode,
/// if they are valid UTF-8.
#[verifier::external_body]
fn text_from_utf8(bytes: &Vec<u8>) -> (r: Option<String>)
    ensures
        r is Some == valid_utf8(bytes@),
        r matches Some(s) ==> s@ == decode_utf8(bytes@),
{
    String::from_utf8(bytes.clone()).ok()
}

/// The stream that carries the diagnostics: standard output, or standard
/// error when standard output is empty.
pub open spec fn chosen_stream(stdout: Seq<u8>, stderr: Seq<u8>) -> Seq<u8> {
    if stdout.len() == 0 {
        stderr
    } else {
        stdout
    }
}

/// The lines `ls`, each with a line feed before it, as one text.
pub open spec fn trace_of(ls: Seq<Seq<char>>) -> Seq<char>
    decreases ls.len(),
{
    if ls.len() == 0 {
        Seq::empty()
    } else {
        trace_of(ls.drop_last()) + seq!['\n'] + ls.last()
    }
}

/// The diagnostics of a run: the lines of the chosen stream, each with a line
/// feed before it. `None` when the stream is not UTF-8 text.
pub open spec fn diagnostic_of(stdout: Seq<u8>, stderr: Seq<u8>) -> Option<Seq<char>> {
    let stream = chosen_stream(stdout, stderr);
    if valid_utf8(stream) {
        Some(trace_of(lines(decode_utf8(stream))))
    } else {
        None
    }
}

/// What the engine printed, line by line, each line with a line feed before it.
pub fn diagnostic_text(result: &InvocationResult) -> (r: Option<String>)
    ensures
        match r {
            Some(s) => diagnostic_of(result.stdout@, result.stderr@) == Some(s@),
            None => diagnostic_of(result.stdout@, result.stderr@) is None,
        },
{
    let stream: &Vec<u8> = if result.stdout.len() == 0 {
        &result.stderr
    } else {
        &result.stdout
    };
    match text_from_utf8(stream) {
        None => None,
        Some(text) => {
            let cs = chars_of(text.as_str());
            let spans = line_spans(&cs);
            let ghost ls = lines(cs@);
            let mut out = String::new();
            let mut i: usize = 0;
            assert(ls.take(0) == Seq::<Seq<char>>::empty());
            while i < spans.len()
                invariant
                    i <= spans.len(),
                    ls == lines(cs@),
                    cut(cs@, spans@) == ls,
                    forall|j: int|
                        0 <= j < spans.len() ==> (#[trigger] spans[j]).within(cs.len() as int),
                    out@ == trace_of(ls.take(i as int)),
                decreases spans.len() - i,
            {
                let span = &spans[i];
                assert(span.within(cs.len() as int));
                assert(cut(cs@, spans@).len() == spans.len());
                assert(ls[i as int] == cs@.subrange(span.start as int, span.end as int));
                assert(ls.take(i + 1).drop_last() == ls.take(i as int));
                assert(ls.take(i + 1).last() == ls[i as int]);
                push_char(&mut out, '\n');
                append_chars(&mut out, &cs, span.start, span.end);
                assert(out@ == trace_of(ls.take(i as int)) + seq!['\n'] + ls[i as int]);
                i = i + 1;
            }
            assert(ls.take(i as int) == ls);
            Some(out)
        },
    }
}

} // verus!
