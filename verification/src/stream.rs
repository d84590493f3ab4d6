//! The stream segmenter: a whole catalog text split into per-record
//! buffers on blank lines, full-line comments dropped, each buffer
//! handed to the record parser. The first failing record aborts the
//! whole stream.

use vstd::prelude::*;
use crate::chars::append_chars;
use crate::chars::chars_to_string;
use crate::chars::is_space;
use crate::chars::is_space_char;
use crate::chars::str_chars;
use crate::grammar::ErrorModel;
use crate::grammar::ParseError;
use crate::grammar::spec_parse_message;
use crate::grammar::spec_skip_ws;
use crate::message::MessageModel;
use crate::message::PoMessage;
use crate::parser::Parser;
use crate::parser::skip_spaces;

verus! {

/// A parse failure of one record inside a stream: the failing record's
/// buffered text, the number of the line at which its parse was
/// triggered (counting from zero), and the cause.
#[derive(Debug, Clone, PartialEq)]
pub struct StreamError {
    pub line_number: usize,
    pub text: String,
    pub cause: ParseError,
}

/// The mathematical shape of a stream failure.
pub struct StreamErrorModel {
    pub line_number: int,
    pub text: Seq<char>,
    pub cause: ErrorModel,
}

impl View for StreamError {
    type V = StreamErrorModel;

    open spec fn view(&self) -> StreamErrorModel {
        StreamErrorModel {
            line_number: self.line_number as int,
            text: self.text@,
            cause: self.cause@,
        }
    }
}

/// The input without trailing whitespace.
pub open spec fn spec_trim_end(s: Seq<char>) -> Seq<char>
    decreases s.len(),
{
    if s.len() > 0 && is_space_char(s[s.len() - 1]) {
        spec_trim_end(s.take(s.len() - 1))
    } else {
        s
    }
}

/// The input without leading and trailing whitespace, as each source
/// line is trimmed before the segmenter looks at it.
pub open spec fn spec_trim(s: Seq<char>) -> Seq<char> {
    spec_trim_end(spec_skip_ws(s))
}

/// The lines of the input, split on line breaks; a trailing line break
/// opens no further empty line. `cur` accumulates the line being read.
pub open spec fn spec_lines_acc(s: Seq<char>, cur: Seq<char>) -> Seq<Seq<char>>
    decreases s.len(),
{
    if s.len() == 0 {
        if cur.len() == 0 {
            Seq::empty()
        } else {
            seq![cur]
        }
    } else if s[0] == '\n' {
        seq![cur] + spec_lines_acc(s.skip(1), Seq::empty())
    } else {
        spec_lines_acc(s.skip(1), cur.push(s[0]))
    }
}

pub open spec fn spec_lines(s: Seq<char>) -> Seq<Seq<char>> {
    spec_lines_acc(s, Seq::empty())
}

/// The segmenter's walk from line `i` on, with the record text
/// accumulated so far and the records already parsed. A blank line
/// while the buffer is non-empty closes one record; a line whose first
/// character after trimming is `#` is dropped; any other line joins
/// the buffer, line breaks restored. The end of the input closes a
/// last non-empty buffer.
pub open spec fn spec_stream_fold(
    lines: Seq<Seq<char>>,
    i: int,
    buf: Seq<char>,
    acc: Seq<MessageModel>,
    cases: Option<usize>,
) -> Result<Seq<MessageModel>, StreamErrorModel>
    decreases lines.len() - i,
{
    if i < 0 || i >= lines.len() {
        if buf.len() > 0 {
            match spec_parse_message(buf, cases) {
                Ok(m) => Ok(acc.push(m)),
                Err(e) => Err(
                    StreamErrorModel { line_number: lines.len() as int, text: buf, cause: e },
                ),
            }
        } else {
            Ok(acc)
        }
    } else {
        let l = spec_trim(lines[i]);
        if l.len() == 0 && buf.len() > 0 {
            match spec_parse_message(buf, cases) {
                Ok(m) => spec_stream_fold(lines, i + 1, Seq::empty(), acc.push(m), cases),
                Err(e) => Err(StreamErrorModel { line_number: i, text: buf, cause: e }),
            }
        } else if !(l.len() >= 1 && l[0] == '#') {
            spec_stream_fold(
                lines,
                i + 1,
                if buf.len() > 0 {
                    buf + seq!['\n'] + l
                } else {
                    l
                },
                acc,
                cases,
            )
        } else {
            spec_stream_fold(lines, i + 1, buf, acc, cases)
        }
    }
}

/// The whole read path over a catalog text: its records in file order,
/// or the first failure.
pub open spec fn spec_parse_stream(s: Seq<char>, cases: Option<usize>) -> Result<
    Seq<MessageModel>,
    StreamErrorModel,
> {
    spec_stream_fold(spec_lines(s), 0, Seq::empty(), Seq::empty(), cases)
}

/// Splits the text into lines.
#[verifier::loop_isolation(false)]
fn split_lines(chars: &Vec<char>) -> (r: Vec<Vec<char>>)
    ensures
        r.deep_view() == spec_lines(chars@),
{
    let n = chars.len();
    let mut lines: Vec<Vec<char>> = Vec::new();
    let mut cur: Vec<char> = Vec::new();
    let mut i: usize = 0;
    proof {
        assert(chars@.skip(0) =~= chars@);
        assert(lines.deep_view() =~= Seq::<Seq<char>>::empty());
        assert(Seq::<Seq<char>>::empty() + spec_lines_acc(chars@, cur@) =~= spec_lines_acc(
            chars@,
            cur@,
        ));
    }
    while i < n
        invariant
            i <= n,
            lines.deep_view() + spec_lines_acc(chars@.skip(i as int), cur@) == spec_lines(chars@),
        decreases n - i,
    {
        let ghost t = chars@.skip(i as int);
        proof {
            assert(t[0] == chars@[i as int]);
            assert(t.skip(1) =~= chars@.skip(i + 1));
        }
        let c = chars[i];
        if c == '\n' {
            let ghost dv_old = lines.deep_view();
            let ghost cur_old = cur@;
            let done = cur;
            cur = Vec::new();
            lines.push(done);
            proof {
                assert(lines.deep_view() =~~= dv_old.push(cur_old));
                assert(spec_lines_acc(t, cur_old) == seq![cur_old] + spec_lines_acc(
                    chars@.skip(i + 1),
                    Seq::<char>::empty(),
                ));
                assert(dv_old + (seq![cur_old] + spec_lines_acc(
                    chars@.skip(i + 1),
                    Seq::<char>::empty(),
                )) =~= dv_old.push(cur_old) + spec_lines_acc(
                    chars@.skip(i + 1),
                    Seq::<char>::empty(),
                ));
            }
        } else {
            cur.push(c);
        }
        i = i + 1;
    }
    proof {
        assert(chars@.skip(n as int).len() == 0);
    }
    if cur.len() > 0 {
        let ghost dv_old = lines.deep_view();
        let ghost cur_old = cur@;
        lines.push(cur);
        proof {
            assert(lines.deep_view() =~~= dv_old.push(cur_old));
            assert(dv_old + seq![cur_old] =~= dv_old.push(cur_old));
        }
    } else {
        proof {
            assert(lines.deep_view() + Seq::<Seq<char>>::empty() =~= lines.deep_view());
        }
    }
    lines
}

/// Trims leading and trailing whitespace from one line.
#[verifier::loop_isolation(false)]
fn trim_chars(line: &Vec<char>) -> (r: Vec<char>)
    ensures
        r@ == spec_trim(line@),
{
    let n = line.len();
    let start = skip_spaces(line.as_slice(), 0);
    proof {
        assert(line@.skip(0) =~= line@);
    }
    let mut end = n;
    while end > start && is_space(line[end - 1])
        invariant
            start <= end <= n,
            spec_trim_end(line@.subrange(start as int, end as int)) == spec_trim_end(
                line@.skip(start as int),
            ),
        decreases end,
    {
        proof {
            let x = line@.subrange(start as int, end as int);
            assert(x[x.len() - 1] == line@[end - 1]);
            assert(x.take(x.len() - 1) =~= line@.subrange(start as int, end - 1));
        }
        end = end - 1;
    }
    proof {
        let x = line@.subrange(start as int, end as int);
        if end > start {
            assert(x[x.len() - 1] == line@[end - 1]);
        }
        assert(spec_trim_end(x) == x);
    }
    let mut r: Vec<char> = Vec::new();
    let mut i = start;
    while i < end
        invariant
            start <= i <= end <= n,
            r@ == line@.subrange(start as int, i as int),
        decreases end - i,
    {
        r.push(line[i]);
        proof {
            assert(r@ =~= line@.subrange(start as int, i + 1));
        }
        i = i + 1;
    }
    r
}

impl Parser {
    /// The whole read path: splits the text into records on blank
    /// lines, drops full-line comments, parses each record in file
    /// order, and stops at the first failure.
    #[verifier::loop_isolation(false)]
    pub fn parse_messages_from_stream(&self, text: &str) -> (r: Result<Vec<PoMessage>, StreamError>)
        ensures
            ({
                let sp = spec_parse_stream(text@, self.number_of_plural_cases);
                match r {
                    Ok(msgs) => sp == Ok::<Seq<MessageModel>, StreamErrorModel>(msgs.deep_view()),
                    Err(e) => sp == Err::<Seq<MessageModel>, StreamErrorModel>(e@),
                }
            }),
    {
        let chars = str_chars(text);
        let lines = split_lines(&chars);
        let ghost ldv = lines.deep_view();
        let nl = lines.len();
        let mut msgs: Vec<PoMessage> = Vec::new();
        let mut buf: Vec<char> = Vec::new();
        let mut li: usize = 0;
        proof {
            assert(msgs.deep_view() =~= Seq::<MessageModel>::empty());
        }
        while li < nl
            invariant
                li <= nl,
                spec_stream_fold(
                    ldv,
                    li as int,
                    buf@,
                    msgs.deep_view(),
                    self.number_of_plural_cases,
                ) == spec_parse_stream(text@, self.number_of_plural_cases),
            decreases nl - li,
        {
            proof {
                assert(ldv[li as int] =~= lines@[li as int]@);
            }
            let line = trim_chars(&lines[li]);
            if line.len() == 0 && buf.len() > 0 {
                match self.parse_message(buf.as_slice()) {
                    Ok(m) => {
                        let ghost mdv_old = msgs.deep_view();
                        msgs.push(m);
                        proof {
                            assert(msgs.deep_view() =~= mdv_old.push(m@));
                        }
                        buf = Vec::new();
                    },
                    Err(e) => {
                        let text_copy = chars_to_string(&buf);
                        return Err(
                            StreamError { line_number: li, text: text_copy, cause: e },
                        );
                    },
                }
            } else if !(line.len() > 0 && line[0] == '#') {
                let ghost buf_old = buf@;
                if buf.len() > 0 {
                    buf.push('\n');
                    append_chars(&mut buf, &line);
                    proof {
                        assert(buf@ =~= buf_old + seq!['\n'] + line@);
                    }
                } else {
                    buf = line;
                }
            }
            li = li + 1;
        }
        if buf.len() > 0 {
            match self.parse_message(buf.as_slice()) {
                Ok(m) => {
                    let ghost mdv_old = msgs.deep_view();
                    msgs.push(m);
                    proof {
                        assert(msgs.deep_view() =~= mdv_old.push(m@));
                    }
                    Ok(msgs)
                },
                Err(e) => {
                    let text_copy = chars_to_string(&buf);
                    Err(StreamError { line_number: nl, text: text_copy, cause: e })
                },
            }
        } else {
            Ok(msgs)
        }
    }
}

} // verus!
