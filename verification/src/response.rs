//! Responses of the engine, and the framing of a stream of text into them.

use vstd::prelude::*;
use crate::entity::{views, Entity};
use crate::parser::{unread, EntityParser};
use crate::text::{
    chars_of, copy_range, is_digit, lemma_run, lemma_run_is, numeral_value, parse_unsigned,
    push_str, run, string_from_chars,
};

verus! {

/// A response of the engine: the outcome of a command, the id that the
/// command was sent with, if it had one, and the text of the answer.
#[derive(Debug, PartialEq)]
pub enum Response {
    Error((Option<u32>, String)),
    Result((Option<u32>, String)),
}

/// What a [`Response`] holds, as a mathematical value.
pub enum ResponseView {
    Error((Option<u32>, Seq<char>)),
    Result((Option<u32>, Seq<char>)),
}

impl View for Response {
    type V = ResponseView;

    open spec fn view(&self) -> ResponseView {
        match self {
            Response::Error((id, text)) => ResponseView::Error((*id, text@)),
            Response::Result((id, text)) => ResponseView::Result((*id, text@)),
        }
    }
}

impl ResponseView {
    /// The text of the response.
    pub open spec fn text(self) -> Seq<char> {
        match self {
            ResponseView::Error((_, text)) => text,
            ResponseView::Result((_, text)) => text,
        }
    }

    /// The id of the response.
    pub open spec fn id(self) -> Option<u32> {
        match self {
            ResponseView::Error((id, _)) => id,
            ResponseView::Result((id, _)) => id,
        }
    }
}

impl Clone for Response {
    fn clone(&self) -> (r: Self)
        ensures
            r@ == self@,
    {
        match self {
            Response::Error((id, text)) => Response::Error((*id, text.clone())),
            Response::Result((id, text)) => Response::Result((*id, text.clone())),
        }
    }
}

/// Why the entities of a response could not be read.
#[derive(Debug)]
pub enum ResponseParseError {
    NoInput,
    BadEntityInput,
    BadResponse,
}

impl Response {
    /// The text of the response, which an `EntityParser` can read.
    pub fn text(&self) -> (t: String)
        ensures
            t@ == self@.text(),
    {
        match self {
            Response::Error((_, t)) => t.clone(),
            Response::Result((_, t)) => t.clone(),
        }
    }

    /// The id of the response, or 0 where it has none.
    pub fn id_0(&self) -> (id: u32)
        ensures
            id == match self@.id() {
                Some(n) => n,
                None => 0u32,
            },
    {
        match self {
            Response::Error((None, _)) => 0,
            Response::Result((None, _)) => 0,
            Response::Error((Some(id), _)) => *id,
            Response::Result((Some(id), _)) => *id,
        }
    }
}

impl Response {
    /// The entities that `parse_fn` reads from the text of the response, or
    /// `BadEntityInput` where one of its reads fails.
    pub fn entities<T>(&self, parse_fn: T) -> (r: Result<Vec<Entity>, ResponseParseError>) where
        T: Fn(&mut EntityParser) -> &mut EntityParser,

        requires
            forall|p: &mut EntityParser|
                p@ == unread(self@.text()) ==> call_requires(parse_fn, (p,)),
        ensures
            exists|p: &mut EntityParser, out: &mut EntityParser|
                p@ == unread(self@.text()) && call_ensures(parse_fn, (p,), out) && *final(out)
                    == *out && match r {
                    Ok(entities) => !final(p)@.failed && views(entities@) == final(p)@.entities,
                    Err(e) => final(p)@.failed && e is BadEntityInput,
                },
    {
        let text = self.text();
        let mut ep = EntityParser::new(text.as_str());
        parse_fn(&mut ep);
        ep.finish()
    }
}

/// Why no response came out of the text that was fed so far.
#[derive(Debug, PartialEq)]
pub enum ResponseError {
    /// The text does not hold a whole response yet.
    IncompleteResponse,
    /// The text cannot be the start of a response; it comes with the text.
    BadResponse(String),
}

/// What a [`ResponseError`] holds, as a mathematical value.
pub enum ResponseErrorView {
    IncompleteResponse,
    BadResponse(Seq<char>),
}

impl View for ResponseError {
    type V = ResponseErrorView;

    open spec fn view(&self) -> ResponseErrorView {
        match self {
            ResponseError::IncompleteResponse => ResponseErrorView::IncompleteResponse,
            ResponseError::BadResponse(text) => ResponseErrorView::BadResponse(text@),
        }
    }
}

impl Clone for ResponseError {
    fn clone(&self) -> (r: Self)
        ensures
            r@ == self@,
    {
        match self {
            ResponseError::IncompleteResponse => ResponseError::IncompleteResponse,
            ResponseError::BadResponse(text) => ResponseError::BadResponse(text.clone()),
        }
    }
}

/// Whether `c` is a newline, a space or a tab.
pub open spec fn is_blank(c: char) -> bool {
    c == '\n' || c == ' ' || c == '\t'
}

/// The text `s` without its carriage returns and with a space for each tab.
pub open spec fn plain(s: Seq<char>) -> Seq<char> {
    s.filter(|c: char| c != '\r').map_values(
        |c: char|
            if c == '\t' {
                ' '
            } else {
                c
            },
    )
}

/// The text `s` without the blank characters that it starts with.
pub open spec fn trim_start(s: Seq<char>) -> Seq<char> {
    s.skip(run(s, |c: char| is_blank(c)) as int)
}

/// The number of characters of `s` that stand before the first `c`; the
/// length of `s` where it holds no `c`.
pub open spec fn before(s: Seq<char>, c: char) -> nat {
    run(s, other_than(c))
}

/// The property of a character to be another one than `c`.
pub open spec fn other_than(c: char) -> spec_fn(char) -> bool {
    |x: char| x != c
}

/// The text `s` without its comments. A comment runs from a `#` through the
/// next newline. From a `#` that no newline follows, the text is kept as it
/// stands.
pub open spec fn strip_comments(s: Seq<char>) -> Seq<char>
    decreases s.len(),
{
    if s.len() == 0 {
        s
    } else if s[0] != '#' {
        seq![s[0]] + strip_comments(s.skip(1))
    } else if before(s, '\n') < s.len() {
        strip_comments(s.skip(before(s, '\n') as int + 1))
    } else {
        s
    }
}

/// The text of a buffer as the framing reads it: carriage returns dropped,
/// tabs turned into spaces, leading blank characters dropped, and then the
/// comments taken out.
pub open spec fn refined(s: Seq<char>) -> Seq<char> {
    strip_comments(trim_start(plain(s)))
}

/// The position of the first blank line of `s`, that is, of the first
/// newline that another newline follows; where `s` has none, a position
/// less than two characters from the end of `s`.
pub open spec fn blank_line(s: Seq<char>) -> nat
    decreases s.len(),
{
    if s.len() < 2 {
        s.len()
    } else if s[0] == '\n' && s[1] == '\n' {
        0
    } else {
        1 + blank_line(s.skip(1))
    }
}

/// Whether `s` holds a blank line.
pub open spec fn has_blank_line(s: Seq<char>) -> bool {
    blank_line(s) + 2 <= s.len()
}

/// What stands at the head of a refined buffer.
pub enum Frame {
    /// Not yet a whole response.
    Incomplete,
    /// Text that cannot be the start of a response.
    Malformed,
    /// A whole response, and the text that follows it.
    Complete { error: bool, id: Option<u32>, body: Seq<char>, rest: Seq<char> },
}

/// The id that the digits of a response's head denote: none where there is
/// no digit, or where the number does not fit in 32 bits.
pub open spec fn id_of(digits: Seq<char>) -> Option<u32> {
    if digits.len() > 0 && numeral_value(digits) <= u32::MAX {
        Some(numeral_value(digits) as u32)
    } else {
        None
    }
}

/// The frame whose text starts at position `start` of the buffer `b`: the
/// text runs up to the first blank line, and the frame ends behind that
/// line.
pub open spec fn body_frame(b: Seq<char>, id: Option<u32>, start: int) -> Frame {
    let text = b.skip(start);
    if has_blank_line(text) {
        Frame::Complete {
            error: b[0] != '=',
            id,
            body: text.take(blank_line(text) as int),
            rest: text.skip(blank_line(text) as int + 2),
        }
    } else {
        Frame::Incomplete
    }
}

/// The frame at the head of the refined buffer `b`.
///
/// A buffer that is empty, or still holds a `#`, whose comment has not
/// ended yet, is incomplete. The first character tells a success (`=`) from
/// a failure. Where a space follows it, the response has no id; else digits
/// and then a space must follow.
pub open spec fn frame(b: Seq<char>) -> Frame {
    if b.len() == 0 || b.contains('#') {
        Frame::Incomplete
    } else if b.len() > 1 && b[1] == ' ' {
        body_frame(b, None, 2)
    } else {
        let stop = 1 + run(b.skip(1), |c: char| is_digit(c)) as int;
        if stop >= b.len() {
            Frame::Incomplete
        } else if b[stop] != ' ' {
            Frame::Malformed
        } else {
            body_frame(b, id_of(b.subrange(1, stop)), stop + 1)
        }
    }
}

/// What reading one response from a buffer gives, and what it leaves.
pub struct Parsed {
    pub outcome: Result<ResponseView, ResponseErrorView>,
    pub rest: Seq<char>,
}

/// Reading one response from the buffer `buffer`.
///
/// The buffer is refined first. A whole response at its head is taken out
/// of it; otherwise the refined buffer stays as it is.
pub open spec fn parse(buffer: Seq<char>) -> Parsed {
    let b = refined(buffer);
    match frame(b) {
        Frame::Incomplete => Parsed { outcome: Err(ResponseErrorView::IncompleteResponse), rest: b },
        Frame::Malformed => Parsed { outcome: Err(ResponseErrorView::BadResponse(b)), rest: b },
        Frame::Complete { error, id, body, rest } => Parsed {
            outcome: Ok(
                if error {
                    ResponseView::Error((id, body))
                } else {
                    ResponseView::Result((id, body))
                },
            ),
            rest,
        },
    }
}

/// Text that is fed in two pieces is read as the same text fed in one
/// piece: the parser holds the same text, and the same response is read
/// from it.
pub proof fn lemma_feed_in_pieces(buffer: Seq<char>, a: Seq<char>, b: Seq<char>)
    ensures
        (buffer + a) + b == buffer + (a + b),
        parse((buffer + a) + b) == parse(buffer + (a + b)),
{
    assert((buffer + a) + b =~= buffer + (a + b));
}

/// The plain form of two texts, one behind the other, is the plain form of
/// the first and then that of the second.
pub proof fn lemma_plain_of_parts(a: Seq<char>, b: Seq<char>)
    ensures
        plain(a + b) == plain(a) + plain(b),
{
    let keep = |c: char| c != '\r';
    Seq::filter_distributes_over_add(a, b, keep);
}

/// The plain form of a text holds no character that the text does not
/// hold, but for the space.
pub proof fn lemma_plain_holds_no_more(s: Seq<char>, c: char)
    requires
        !s.contains(c),
        c != ' ',
    ensures
        !plain(s).contains(c),
{
    let keep = |x: char| x != '\r';
    let kept = s.filter(keep);
    if plain(s).contains(c) {
        let i = choose|i: int| 0 <= i < plain(s).len() && plain(s)[i] == c;
        s.lemma_filter_contains_rev(keep, c);
    }
}

/// Whether `s` holds a character that is neither blank nor a carriage
/// return.
pub open spec fn has_text(s: Seq<char>) -> bool {
    exists|i: int| 0 <= i < s.len() && !is_blank(#[trigger] s[i]) && s[i] != '\r'
}

/// The plain form of a text that holds a character that is neither blank
/// nor a carriage return holds a character that is not blank.
pub proof fn lemma_plain_keeps_text(s: Seq<char>)
    requires
        has_text(s),
    ensures
        exists|j: int| 0 <= j < plain(s).len() && !is_blank(#[trigger] plain(s)[j]),
{
    let keep = |x: char| x != '\r';
    let kept = s.filter(keep);
    let i = choose|i: int| 0 <= i < s.len() && !is_blank(#[trigger] s[i]) && s[i] != '\r';
    s.lemma_filter_contains(keep, i);
    let j = choose|j: int| 0 <= j < kept.len() && kept[j] == s[i];
    assert(plain(s)[j] == s[i]);
}

/// A comment and what follows it are stripped to what the text that
/// follows is stripped to.
pub proof fn lemma_strip_comment(c: Seq<char>, t: Seq<char>)
    requires
        !c.contains('\n'),
    ensures
        strip_comments(seq!['#'] + c + seq!['\n'] + t) == strip_comments(t),
{
    let p = seq!['#'] + c + seq!['\n'] + t;
    let end = 1 + c.len() as int;
    lemma_run_is(p, other_than('\n'), end);
    assert(p.skip(before(p, '\n') as int + 1) =~= t);
}

/// Text without a `#` stays as it is in front of what the text behind it
/// is stripped to.
pub proof fn lemma_strip_behind(a: Seq<char>, b: Seq<char>)
    requires
        !a.contains('#'),
    ensures
        strip_comments(a + b) == a + strip_comments(b),
    decreases a.len(),
{
    if a.len() > 0 {
        let rest = a.skip(1);
        assert((a + b).skip(1) =~= rest + b);
        lemma_strip_behind(rest, b);
    }
}

/// The blank characters at the start of a text that holds a character that
/// is not blank are those of the text with any other behind it.
pub proof fn lemma_trim_start_of_parts(a: Seq<char>, b: Seq<char>)
    requires
        exists|j: int| 0 <= j < a.len() && !is_blank(#[trigger] a[j]),
    ensures
        trim_start(a + b) == trim_start(a) + b,
{
    let blank = |c: char| is_blank(c);
    let n = run(a, blank) as int;
    lemma_run(a, blank);
    lemma_run_is(a + b, blank, n);
}

/// A comment at the head of the text does not change what is read: where
/// `c` holds no newline, the text of `#`, `c`, a newline and `t` is refined
/// to what `t` alone is refined to, provided that `t` does not begin with
/// blank characters once its carriage returns are dropped.
pub proof fn lemma_leading_comment(c: Seq<char>, t: Seq<char>)
    requires
        !c.contains('\n'),
        trim_start(plain(t)) == plain(t),
    ensures
        refined(seq!['#'] + c + seq!['\n'] + t) == refined(t),
        parse(seq!['#'] + c + seq!['\n'] + t) == parse(t),
{
    let hash = seq!['#'];
    let newline = seq!['\n'];
    lemma_plain_of_marks();
    lemma_plain_of_parts(hash + c + newline, t);
    lemma_plain_of_parts(hash + c, newline);
    lemma_plain_of_parts(hash, c);
    lemma_plain_holds_no_more(c, '\n');
    let p = hash + plain(c) + newline + plain(t);
    assert(trim_start(p) =~= p);
    lemma_strip_comment(plain(c), plain(t));
}

/// The plain form of a `#` and of a newline is the character itself.
proof fn lemma_plain_of_marks()
    ensures
        plain(seq!['#']) == seq!['#'],
        plain(seq!['\n']) == seq!['\n'],
{
    reveal(Seq::filter);
}

/// A comment inside the text does not change what is read: where `x` holds
/// no `#` but a character that is neither blank nor a carriage return, and
/// `c` holds no newline, the text of `x`, `#`, `c`, a newline and `y` is
/// refined to what `x` and `y` alone are refined to.
pub proof fn lemma_comment_inside(x: Seq<char>, c: Seq<char>, y: Seq<char>)
    requires
        !x.contains('#'),
        has_text(x),
        !c.contains('\n'),
    ensures
        refined(x + seq!['#'] + c + seq!['\n'] + y) == refined(x + y),
        parse(x + seq!['#'] + c + seq!['\n'] + y) == parse(x + y),
{
    let hash = seq!['#'];
    let newline = seq!['\n'];
    lemma_plain_of_marks();
    lemma_plain_of_parts(x, y);
    lemma_plain_holds_no_more(c, '\n');
    lemma_plain_holds_no_more(x, '#');
    lemma_plain_keeps_text(x);
    let px = plain(x);
    let behind = hash + plain(c) + newline + plain(y);
    assert(plain(x + hash + c + newline + y) =~= px + behind);
    lemma_trim_start_of_parts(px, behind);
    lemma_trim_start_of_parts(px, plain(y));
    let head = trim_start(px);
    assert forall|i: int| 0 <= i < head.len() implies head[i] != '#' by {
        lemma_run(px, |c: char| is_blank(c));
    }
    lemma_strip_behind(head, behind);
    lemma_strip_behind(head, plain(y));
    lemma_strip_comment(plain(c), plain(y));
}

/// A text that holds a blank line from some position on holds a blank
/// line.
pub proof fn lemma_blank_line_behind(s: Seq<char>, k: int)
    requires
        0 <= k <= s.len(),
        has_blank_line(s.skip(k)),
    ensures
        has_blank_line(s),
    decreases k,
{
    if k > 0 {
        let t = s.skip(k - 1);
        assert(t.skip(1) =~= s.skip(k));
        lemma_blank_line_behind(s, k - 1);
    } else {
        assert(s.skip(0) =~= s);
    }
}

/// Without a blank line no response is read: where the refined text of the
/// buffer holds no blank line, reading gives an error and leaves the
/// refined text in the buffer.
pub proof fn lemma_no_frame_without_blank_line(buffer: Seq<char>)
    requires
        !has_blank_line(refined(buffer)),
    ensures
        parse(buffer).outcome is Err,
        parse(buffer).rest == refined(buffer),
{
    let b = refined(buffer);
    if b.len() > 0 && !b.contains('#') {
        if b.len() > 1 && b[1] == ' ' {
            if has_blank_line(b.skip(2)) {
                lemma_blank_line_behind(b, 2);
            }
        } else {
            let stop = 1 + run(b.skip(1), |c: char| is_digit(c)) as int;
            if stop < b.len() && has_blank_line(b.skip(stop + 1)) {
                lemma_blank_line_behind(b, stop + 1);
            }
        }
    }
}

/// The characters of `s` without carriage returns and with spaces for tabs.
fn to_plain(s: &Vec<char>) -> (out: Vec<char>)
    ensures
        out@ == plain(s@),
{
    let mut out: Vec<char> = Vec::new();
    let mut i: usize = 0;
    while i < s.len()
        invariant
            i <= s.len(),
            out@ == plain(s@.take(i as int)),
        decreases s.len() - i,
    {
        let c = s[i];
        proof {
            reveal(Seq::filter);
            let next = s@.take(i + 1);
            assert(next.drop_last() =~= s@.take(i as int));
        }
        if c != '\r' {
            if c == '\t' {
                out.push(' ');
            } else {
                out.push(c);
            }
        }
        i += 1;
    }
    proof {
        assert(s@.take(i as int) =~= s@);
    }
    out
}

/// The number of blank characters that `s` starts with.
fn count_blanks(s: &Vec<char>) -> (n: usize)
    ensures
        n == run(s@, |c: char| is_blank(c)),
{
    let mut i: usize = 0;
    while i < s.len() && (s[i] == '\n' || s[i] == ' ' || s[i] == '\t')
        invariant
            i <= s.len(),
            forall|j: int| 0 <= j < i ==> is_blank(#[trigger] s@[j]),
        decreases s.len() - i,
    {
        i += 1;
    }
    proof {
        lemma_run_is(s@, |c: char| is_blank(c), i as int);
    }
    i
}

/// The position of the first `c` in `s` at or behind position `from`; the
/// length of `s` where there is none.
fn find(s: &Vec<char>, from: usize, c: char) -> (at: usize)
    requires
        from <= s.len(),
    ensures
        at == from + before(s@.skip(from as int), c),
        from <= at <= s.len(),
{
    let mut i: usize = from;
    while i < s.len() && s[i] != c
        invariant
            from <= i <= s.len(),
            forall|j: int| from <= j < i ==> s@[j] != c,
        decreases s.len() - i,
    {
        i += 1;
    }
    proof {
        let t = s@.skip(from as int);
        lemma_run_is(t, other_than(c), i - from);
    }
    i
}

/// The characters of `s` without its comments.
fn without_comments(s: &Vec<char>) -> (out: Vec<char>)
    ensures
        out@ == strip_comments(s@),
{
    let mut out: Vec<char> = Vec::new();
    let mut i: usize = 0;
    proof {
        assert(s@.skip(0) =~= s@);
    }
    while i < s.len()
        invariant
            i <= s.len(),
            strip_comments(s@) == out@ + strip_comments(s@.skip(i as int)),
        decreases s.len() - i,
    {
        let ghost tail = s@.skip(i as int);
        let ghost kept = out@;
        let c = s[i];
        if c != '#' {
            out.push(c);
            proof {
                assert(tail.skip(1) =~= s@.skip(i + 1));
            }
            i += 1;
        } else {
            let end = find(s, i, '\n');
            if end < s.len() {
                proof {
                    assert(tail.skip(before(tail, '\n') as int + 1) =~= s@.skip(end + 1));
                }
                i = end + 1;
            } else {
                let mut k: usize = i;
                while k < s.len()
                    invariant
                        i <= k <= s.len(),
                        out@ == kept + s@.subrange(i as int, k as int),
                    decreases s.len() - k,
                {
                    out.push(s[k]);
                    k += 1;
                }
                i = k;
            }
        }
    }
    out
}

/// The characters of a buffer as the framing reads them.
fn refine(s: &Vec<char>) -> (out: Vec<char>)
    ensures
        out@ == refined(s@),
{
    let p = to_plain(s);
    let skip = count_blanks(&p);
    proof {
        lemma_run(p@, |c: char| is_blank(c));
    }
    let trimmed = copy_range(&p, skip, p.len());
    without_comments(&trimmed)
}

/// The text of a buffer as the framing reads it: without carriage returns,
/// with spaces for tabs, without leading blank characters and without
/// comments.
pub fn refine_input(s: String) -> (r: String)
    ensures
        r@ == refined(s@),
{
    let chars = chars_of(s.as_str());
    string_from_chars(refine(&chars))
}

/// Tells whether `c` occurs in `s`.
fn holds(s: &Vec<char>, c: char) -> (b: bool)
    ensures
        b == s@.contains(c),
{
    let at = find(s, 0, c);
    proof {
        assert(s@.skip(0) =~= s@);
        lemma_run(s@, other_than(c));
    }
    at < s.len()
}

/// The position of the first blank line of `s` at or behind `from`, counted
/// from `from`.
fn find_blank_line(s: &Vec<char>, from: usize) -> (n: usize)
    requires
        from <= s.len(),
    ensures
        n == blank_line(s@.skip(from as int)),
        from + n <= s.len(),
{
    if s.len() == 0 {
        return 0;
    }
    let mut i: usize = from;
    while i < s.len() - 1 && !(s[i] == '\n' && s[i + 1] == '\n')
        invariant
            1 <= s.len(),
            from <= i <= s.len(),
            blank_line(s@.skip(from as int)) == (i - from) + blank_line(s@.skip(i as int)),
        decreases s.len() - i,
    {
        proof {
            let t = s@.skip(i as int);
            assert(t.skip(1) =~= s@.skip(i + 1));
        }
        i += 1;
    }
    if i < s.len() - 1 {
        i - from
    } else {
        s.len() - from
    }
}

/// A parser that cuts the text of an engine's output into responses.
///
/// Text is fed to it piece by piece, as it arrives; it holds what was fed
/// and not yet handed out as a response.
#[derive(Debug, PartialEq)]
pub struct ResponseParser {
    buffer: Vec<char>,
}

impl View for ResponseParser {
    type V = Seq<char>;

    closed spec fn view(&self) -> Seq<char> {
        self.buffer@
    }
}

impl Clone for ResponseParser {
    fn clone(&self) -> (r: Self)
        ensures
            r@ == self@,
    {
        ResponseParser { buffer: copy_range(&self.buffer, 0, self.buffer.len()) }
    }
}

impl Default for ResponseParser {
    fn default() -> (p: Self)
        ensures
            p@ == Seq::<char>::empty(),
    {
        ResponseParser { buffer: Vec::new() }
    }
}

impl ResponseParser {
    /// A parser that holds no text.
    pub fn new() -> (p: ResponseParser)
        ensures
            p@ == Seq::<char>::empty(),
    {
        ResponseParser { buffer: Vec::new() }
    }

    /// Adds the text `s` behind the text that the parser holds.
    pub fn feed(&mut self, s: &str)
        ensures
            final(self)@ == old(self)@ + s@,
    {
        push_str(&mut self.buffer, s);
    }

    /// Takes the first response out of the text that was fed so far.
    ///
    /// Gives `IncompleteResponse` where the text holds no whole response
    /// yet, and `BadResponse` where it cannot be the start of one. In both
    /// cases the parser keeps the text, refined, and more can be fed.
    pub fn get_response(&mut self) -> (r: Result<Response, ResponseError>)
        ensures
            final(self)@ == parse(old(self)@).rest,
            match r {
                Ok(response) => parse(old(self)@).outcome == Ok::<ResponseView, ResponseErrorView>(
                    response@,
                ),
                Err(e) => parse(old(self)@).outcome == Err::<ResponseView, ResponseErrorView>(e@),
            },
    {
        let b = refine(&self.buffer);
        let ghost text = b@;
        if b.len() == 0 || holds(&b, '#') {
            self.buffer = b;
            return Err(ResponseError::IncompleteResponse);
        }
        let is_error = b[0] != '=';
        let mut id: Option<u32> = None;
        let start: usize;
        if b.len() > 1 && b[1] == ' ' {
            start = 2;
        } else {
            let stop = count_digits(&b, 1);
            if stop >= b.len() {
                self.buffer = b;
                return Err(ResponseError::IncompleteResponse);
            }
            if b[stop] != ' ' {
                let shown = string_from_chars(copy_range(&b, 0, b.len()));
                proof {
                    assert(text.subrange(0, text.len() as int) =~= text);
                }
                self.buffer = b;
                return Err(ResponseError::BadResponse(shown));
            }
            let digits = copy_range(&b, 1, stop);
            if digits.len() > 0 {
                proof {
                    lemma_run(text.skip(1), |c: char| is_digit(c));
                }
                id = parse_unsigned(&digits);
            }
            start = stop + 1;
        }
        let n = find_blank_line(&b, start);
        if b.len() - start - n < 2 {
            self.buffer = b;
            return Err(ResponseError::IncompleteResponse);
        }
        let body = string_from_chars(copy_range(&b, start, start + n));
        let rest = copy_range(&b, start + n + 2, b.len());
        proof {
            let t = text.skip(start as int);
            assert(t.take(n as int) =~= text.subrange(start as int, start + n));
        }
        self.buffer = rest;
        if is_error {
            Ok(Response::Error((id, body)))
        } else {
            Ok(Response::Result((id, body)))
        }
    }
}

/// The position behind the digits that stand in `s` from position `from` on.
fn count_digits(s: &Vec<char>, from: usize) -> (stop: usize)
    requires
        from <= s.len(),
    ensures
        stop == from + run(s@.skip(from as int), |c: char| is_digit(c)),
        from <= stop <= s.len(),
{
    let mut i: usize = from;
    while i < s.len() && '0' <= s[i] && s[i] <= '9'
        invariant
            from <= i <= s.len(),
            forall|j: int| from <= j < i ==> is_digit(#[trigger] s@[j]),
        decreases s.len() - i,
    {
        i += 1;
    }
    proof {
        let t = s@.skip(from as int);
        lemma_run_is(t, |c: char| is_digit(c), i - from);
    }
    i
}

} // verus!
