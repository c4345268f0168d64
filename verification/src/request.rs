//! The request line: its method and its target.

use crate::text::{
    chars_of, is_whitespace, lemma_run_len, lemma_run_len_of, run_end, run_len, substring, word,
    words,
};
use vstd::prelude::*;

verus! {

/// The first line of a request, taken apart.
#[derive(Debug, PartialEq, Eq)]
pub struct Request {
    pub method: String,
    pub target: String,
}

/// What a `Request` holds, as character sequences.
pub struct RequestModel {
    pub method: Seq<char>,
    pub target: Seq<char>,
}

impl View for Request {
    type V = RequestModel;

    open spec fn view(&self) -> RequestModel {
        RequestModel { method: self.method@, target: self.target@ }
    }
}

impl Clone for Request {
    fn clone(&self) -> (copy: Self)
        ensures
            copy == *self,
    {
        Request { method: self.method.clone(), target: self.target.clone() }
    }
}

/// Whether `text` is a whole line: whether a line feed ends it. What was
/// read from a stream that ended before the line did is not.
pub open spec fn is_whole_line(text: Seq<char>) -> bool {
    text.len() > 0 && text.last() == '\n'
}

/// The method is the first word of the line and the target the second; a
/// word that the line lacks is empty.
pub open spec fn parse_request(line: Seq<char>) -> RequestModel {
    RequestModel { method: word(line, 0), target: word(line, 1) }
}

/// The file that `target` asks for, relative to the served directory: the
/// index for the target `/`, and otherwise the target without its first
/// character.
pub open spec fn requested_file(target: Seq<char>, index: Seq<char>) -> Seq<char> {
    if target == seq!['/'] {
        index
    } else if target.len() == 0 {
        target
    } else {
        target.skip(1)
    }
}

/// `words` peels one word off `s`: the run `start..end` that follows the
/// leading whitespace. Where that run is empty, `s` holds no word at all.
proof fn lemma_words_step(s: Seq<char>, start: int, end: int)
    requires
        0 <= start <= end <= s.len(),
        start == run_len(s, true),
        end - start == run_len(s.skip(start), false),
    ensures
        start == end ==> words(s) == Seq::<Seq<char>>::empty() && start == s.len(),
        start < end ==> words(s) == seq![s.subrange(start, end)] + words(s.skip(end)),
{
    if start == end {
        lemma_run_len(s, true);
    } else {
        let rest = s.skip(start);
        assert(rest.take(end - start) =~= s.subrange(start, end));
        assert(rest.skip(end - start) =~= s.skip(end));
    }
}

/// A line made of a method, one whitespace character and a target parses
/// into that method and that target, whatever follows the target after
/// further whitespace. Neither of the two may be empty or hold whitespace.
pub proof fn lemma_request_line(
    method: Seq<char>,
    gap: char,
    target: Seq<char>,
    tail: Seq<char>,
)
    requires
        method.len() > 0,
        target.len() > 0,
        forall|i: int| 0 <= i < method.len() ==> !is_whitespace(#[trigger] method[i]),
        forall|i: int| 0 <= i < target.len() ==> !is_whitespace(#[trigger] target[i]),
        is_whitespace(gap),
        tail.len() > 0 ==> is_whitespace(tail[0]),
    ensures
        parse_request(method + seq![gap] + target + tail) == (RequestModel { method, target }),
{
    let line = method + seq![gap] + target + tail;
    let after_method = seq![gap] + target + tail;
    let after_gap = target + tail;
    assert(line =~= method + after_method);
    assert(after_method =~= seq![gap] + after_gap);

    // The first word is the method.
    assert(line.skip(0) =~= line);
    lemma_run_len_of(method, after_method, false);
    assert(line.take(method.len() as int) =~= method);
    assert(line.skip(method.len() as int) =~= after_method);

    // The second word is the target.
    lemma_run_len_of(seq![gap], after_gap, true);
    assert(after_method.skip(1) =~= after_gap);
    lemma_run_len_of(target, tail, false);
    assert(after_gap.take(target.len() as int) =~= target);
    assert(words(after_method) == seq![target] + words(after_gap.skip(target.len() as int)));
}

impl Request {
    /// Reads the method and the target off the line whose characters are
    /// `s`.
    fn parse_chars(line: &str, s: &[char]) -> (r: Request)
        requires
            s@ == line@,
        ensures
            r@ == parse_request(line@),
    {
        let method_start: usize = run_end(s, 0, true);
        let method_end: usize = run_end(s, method_start, false);
        let target_start: usize = run_end(s, method_end, true);
        let target_end: usize = run_end(s, target_start, false);
        proof {
            let rest = s@.skip(method_end as int);
            assert(s@.skip(0) =~= s@);
            assert(rest.skip(target_start - method_end) =~= s@.skip(target_start as int));
            lemma_words_step(s@, method_start as int, method_end as int);
            lemma_words_step(rest, target_start - method_end, target_end - method_end);
            assert(rest.subrange(target_start - method_end, target_end - method_end)
                =~= s@.subrange(target_start as int, target_end as int));
        }
        let method = substring(line, method_start, method_end);
        let target = substring(line, target_start, target_end);
        assert(target@ =~= word(line@, 1));
        Request { method, target }
    }

    /// Reads the method and the target off a request line, with or without
    /// its line terminator.
    pub fn parse(line: &str) -> (r: Request)
        ensures
            r@ == parse_request(line@),
    {
        let chars = chars_of(line);
        Request::parse_chars(line, chars.as_slice())
    }

    /// Reads the method and the target off what was read from a stream up
    /// to and including the first line feed. Gives nothing when the stream
    /// ended before the line did.
    pub fn parse_whole_line(text: &str) -> (r: Option<Request>)
        ensures
            r is Some <==> is_whole_line(text@),
            r matches Some(request) ==> request@ == parse_request(text@),
    {
        let chars = chars_of(text);
        let n: usize = chars.len();
        if n == 0 || chars[n - 1] != '\n' {
            None
        } else {
            Some(Request::parse_chars(text, chars.as_slice()))
        }
    }

    /// The file that the request asks for, relative to the served directory.
    pub fn file(&self, index: &str) -> (name: String)
        ensures
            name@ == requested_file(self.target@, index@),
    {
        let target = self.target.as_str();
        let n: usize = target.unicode_len();
        if n == 0 {
            self.target.clone()
        } else if n == 1 && target.get_char(0) == '/' {
            assert(target@ =~= seq!['/']);
            index.to_owned()
        } else {
            substring(target, 1, n)
        }
    }
}

} // verus!
