//! A line of a document together with the place of its local image path.

use crate::link::{
    has_link, image_line, is_path_range, joint_at, lemma_line_feed_keeps_path_range,
    lemma_path_range_bounds, lemma_path_range_unique, lemma_plain_link_range, link_at, link_spans,
    locate_path, none_before, plain_link, written_start, BANG, CLOSE_BRACKET, CLOSE_PAREN,
    LINE_FEED, OPEN_BRACKET, OPEN_PAREN,
};
use crate::text::{lemma_bytes_of_ascii, lemma_bytes_of_concat};
use std::ops::Range;
use vstd::prelude::*;
use vstd::string::StringSliceAdditionalSpecFns;
use vstd::utf8::*;

verus! {

/// The bytes of `https://`, by which a path is known to be hosted already.
pub open spec fn remote_prefix() -> Seq<u8> {
    encode_utf8("https://"@)
}

/// The bytes `p` begin with the bytes `prefix`.
pub open spec fn begins_with(p: Seq<u8>, prefix: Seq<u8>) -> bool {
    p.len() >= prefix.len() && p.subrange(0, prefix.len() as int) == prefix
}

/// The path begins with `https://`.
pub open spec fn is_remote(path: Seq<u8>) -> bool {
    begins_with(path, remote_prefix())
}

/// The path names a local file: it is not empty and not hosted already.
pub open spec fn is_local_path(path: Seq<u8>) -> bool {
    path.len() > 0 && !is_remote(path)
}

/// `[a, b)` is the path of the line's leftmost image link, and that path is local.
pub open spec fn is_match(s: Seq<u8>, a: int, b: int) -> bool {
    is_path_range(s, a, b) && is_local_path(s.subrange(a, b))
}

/// The line holds nothing to replace.
pub open spec fn no_match(s: Seq<u8>) -> bool {
    forall|a: int, b: int| !is_match(s, a, b)
}

/// The line holds a local image path to replace.
pub open spec fn has_match(s: Seq<u8>) -> bool {
    exists|a: int, b: int| is_match(s, a, b)
}

/// The match of a line, if it has one.
pub open spec fn match_range(s: Seq<u8>) -> (int, int) {
    choose|r: (int, int)| is_match(s, r.0, r.1)
}

/// Where the match of a line begins, if it has one.
pub open spec fn match_start(s: Seq<u8>) -> int {
    match_range(s).0
}

/// Where the match of a line ends, if it has one.
pub open spec fn match_end(s: Seq<u8>) -> int {
    match_range(s).1
}

/// A line has one match at most, which `match_start` and `match_end` name.
pub proof fn lemma_match_unique(s: Seq<u8>, a: int, b: int)
    requires
        is_match(s, a, b),
    ensures
        has_match(s),
        !no_match(s),
        match_start(s) == a,
        match_end(s) == b,
{
    let r = (a, b);
    assert(is_match(s, r.0, r.1));
    lemma_path_range_unique(s, a, b, match_start(s), match_end(s));
}

/// The line `s` with the bytes `[a, b)` replaced by `url`.
pub open spec fn splice(s: Seq<u8>, a: int, b: int, url: Seq<u8>) -> Seq<u8> {
    s.subrange(0, a) + url + s.subrange(b, s.len() as int)
}

/// A line that holds a local image path, and where the path stands in it.
pub struct MatchedLine<'a> {
    /// The line.
    pub line: &'a mut String,
    /// The byte range of the path within the line.
    pub range: Range<usize>,
}

/// Whether `s[a..b)` begins with `prefix`.
fn starts_with(s: &[u8], a: usize, b: usize, prefix: &[u8]) -> (r: bool)
    requires
        a <= b <= s.len(),
    ensures
        r == begins_with(s@.subrange(a as int, b as int), prefix@),
{
    let n = prefix.len();
    if b - a < n {
        return false;
    }
    let ghost p = s@.subrange(a as int, b as int);
    let mut i: usize = 0;
    while i < n
        invariant
            i <= n,
            n == prefix.len(),
            a + n <= b <= s.len(),
            p == s@.subrange(a as int, b as int),
            forall|m: int| 0 <= m < i ==> p[m] == prefix@[m],
        decreases n - i,
    {
        if s[a + i] != prefix[i] {
            assert(p.subrange(0, n as int)[i as int] == p[i as int]);
            return false;
        }
        i += 1;
    }
    assert(p.subrange(0, n as int) =~= prefix@);
    true
}

/// Right before and right after an ASCII byte of a UTF-8 text a character begins or the text ends.
pub proof fn lemma_ascii_boundaries(s: Seq<u8>, i: int)
    requires
        valid_utf8(s),
        0 <= i < s.len(),
        s[i] <= 0x7f,
    ensures
        is_char_boundary(s, i),
        is_char_boundary(s, i + 1),
{
    is_char_boundary_iff_not_is_continuation_byte(s, i);
    if i + 1 == s.len() {
        is_char_boundary_start_end_of_seq(s);
    } else {
        valid_utf8_split(s, i);
        let t = s.subrange(i, s.len() as int);
        assert(t[0] == s[i]);
        let rest = pop_first_scalar(t);
        assert(rest =~= s.subrange(i + 1, s.len() as int));
        assert(valid_utf8(rest));
        assert(rest[0] == s[i + 1]);
        assert(valid_first_scalar(rest));
        is_char_boundary_iff_not_is_continuation_byte(s, i + 1);
    }
}

/// A match lies on character boundaries of its line.
pub proof fn lemma_match_on_boundaries(s: Seq<u8>, a: int, b: int)
    requires
        valid_utf8(s),
        is_path_range(s, a, b),
    ensures
        0 <= a <= b <= s.len(),
        is_char_boundary(s, a),
        is_char_boundary(s, b),
{
    lemma_path_range_bounds(s, a, b);
    lemma_ascii_boundaries(s, a - 1);
    lemma_ascii_boundaries(s, b);
}

/// Splicing puts `url` at `a` and leaves what stood before `a` and from `b` on as it was.
pub proof fn lemma_splice_round_trip(s: Seq<u8>, a: int, b: int, url: Seq<u8>)
    requires
        0 <= a <= b <= s.len(),
    ensures
        splice(s, a, b, url).len() == s.len() - (b - a) + url.len(),
        splice(s, a, b, url).subrange(a, a + url.len()) == url,
        splice(s, a, b, url).subrange(0, a) == s.subrange(0, a),
        splice(s, a, b, url).subrange(a + url.len(), splice(s, a, b, url).len() as int)
            == s.subrange(b, s.len() as int),
{
    let r = splice(s, a, b, url);
    assert(r.subrange(a, a + url.len()) =~= url);
    assert(r.subrange(0, a) =~= s.subrange(0, a));
    assert(r.subrange(a + url.len(), r.len() as int) =~= s.subrange(b, s.len() as int));
}

/// `String::replace_range` of std: removes the bytes `[start, end)` of the
/// text and puts `with` in their place. It panics unless both ends lie on
/// character boundaries within the text, which `requires` demands.
#[verifier::external_body]
fn replace_range(text: &mut String, start: usize, end: usize, with: &str)
    requires
        start <= end <= encode_utf8(old(text)@).len(),
        is_char_boundary(encode_utf8(old(text)@), start as int),
        is_char_boundary(encode_utf8(old(text)@), end as int),
    ensures
        encode_utf8(final(text)@) == splice(
            encode_utf8(old(text)@),
            start as int,
            end as int,
            encode_utf8(with@),
        ),
{
    text.replace_range(start..end, with);
}

/// The text that a line becomes when `url` takes the place of its bytes `[a, b)`.
pub open spec fn spliced_text(line: Seq<char>, a: int, b: int, url: Seq<char>) -> Seq<char> {
    decode_utf8(splice(encode_utf8(line), a, b, encode_utf8(url)))
}

/// Looks for the local image path in the bytes of a line.
pub fn find_match(s: &[u8]) -> (r: Option<(usize, usize)>)
    ensures
        match r {
            Some((a, b)) => is_match(s@, a as int, b as int),
            None => no_match(s@),
        },
{
    match locate_path(s) {
        Some((a, b)) => {
            proof {
                lemma_path_range_bounds(s@, a as int, b as int);
            }
            if a == b || starts_with(s, a, b, "https://".as_bytes()) {
                proof {
                    assert forall|x: int, y: int| !is_match(s@, x, y) by {
                        if is_match(s@, x, y) {
                            lemma_path_range_unique(s@, a as int, b as int, x, y);
                        }
                    }
                }
                None
            } else {
                Some((a, b))
            }
        },
        None => None,
    }
}

impl<'a> MatchedLine<'a> {
    /// The range lies within the line on character boundaries, and the path
    /// in it is local.
    pub open spec fn wf(&self) -> bool {
        let s = encode_utf8(self.line@);
        &&& self.range.start <= self.range.end <= s.len()
        &&& is_char_boundary(s, self.range.start as int)
        &&& is_char_boundary(s, self.range.end as int)
        &&& is_local_path(self.path())
    }

    /// The bytes of the path.
    pub open spec fn path(&self) -> Seq<u8> {
        encode_utf8(self.line@).subrange(self.range.start as int, self.range.end as int)
    }

    /// Puts `url` where the path stands; the rest of the line and the range stay.
    pub fn replace(&mut self, url: &str)
        requires
            old(self).wf(),
        ensures
            encode_utf8(final(self).line@) == splice(
                encode_utf8(old(self).line@),
                old(self).range.start as int,
                old(self).range.end as int,
                encode_utf8(url@),
            ),
            final(self).line@ == spliced_text(
                old(self).line@,
                old(self).range.start as int,
                old(self).range.end as int,
                url@,
            ),
            final(self).range == old(self).range,
            *final(final(self).line) == *final(old(self).line),
    {
        replace_range(self.line, self.range.start, self.range.end, url);
        proof {
            encode_utf8_decode_utf8(self.line@);
        }
    }

    /// Looks for an image link with a local path in `line`.
    pub fn new(line: &'a mut String) -> (r: Option<MatchedLine<'a>>)
        ensures
            match r {
                Some(m) => {
                    &&& *m.line == *old(line)
                    &&& *final(m.line) == *final(line)
                    &&& m.wf()
                    &&& is_match(
                        encode_utf8(old(line)@),
                        m.range.start as int,
                        m.range.end as int,
                    )
                },
                None => *final(line) == *old(line) && no_match(encode_utf8(old(line)@)),
            },
    {
        proof {
            encode_utf8_valid_utf8(line@);
        }
        match find_match(line.as_str().as_bytes()) {
            Some((a, b)) => {
                proof {
                    lemma_match_on_boundaries(encode_utf8(line@), a as int, b as int);
                }
                Some(MatchedLine { line, range: Range { start: a, end: b } })
            },
            None => None,
        }
    }
}

/// A line whose leftmost image link is `![alt](path)` with a local path is
/// matched at exactly that path, whatever stands before and behind the
/// link: a second link on the line, or a later `)`, changes nothing.
pub proof fn lemma_local_link_matched(pre: Seq<u8>, alt: Seq<u8>, path: Seq<u8>, post: Seq<u8>)
    requires
        plain_link(alt, path),
        none_before(image_line(pre, alt, path, post), pre.len() as int),
        is_local_path(path),
    ensures
        is_match(
            image_line(pre, alt, path, post),
            written_start(pre, alt),
            written_start(pre, alt) + path.len(),
        ),
        image_line(pre, alt, path, post).subrange(
            written_start(pre, alt),
            written_start(pre, alt) + path.len(),
        ) == path,
{
    lemma_plain_link_range(pre, alt, path, post);
}

/// The text `pre ![alt](path) post`.
pub open spec fn image_text(
    pre: Seq<char>,
    alt: Seq<char>,
    path: Seq<char>,
    post: Seq<char>,
) -> Seq<char> {
    pre + seq!['!', '['] + alt + seq![']', '('] + path + seq![')'] + post
}

/// The bytes of the text `pre ![alt](path) post` are the line made of the
/// bytes of its parts, whatever characters the parts hold.
pub proof fn lemma_image_text_bytes(
    pre: Seq<char>,
    alt: Seq<char>,
    path: Seq<char>,
    post: Seq<char>,
)
    ensures
        encode_utf8(image_text(pre, alt, path, post)) == image_line(
            encode_utf8(pre),
            encode_utf8(alt),
            encode_utf8(path),
            encode_utf8(post),
        ),
{
    let open = seq!['!', '['];
    let joint = seq![']', '('];
    let close = seq![')'];
    assert(encode_utf8(open) == seq![BANG, OPEN_BRACKET]) by {
        assert(open =~= seq!['!'] + seq!['[']);
        lemma_bytes_of_concat(seq!['!'], seq!['[']);
        lemma_bytes_of_ascii('!');
        lemma_bytes_of_ascii('[');
        assert(seq![BANG] + seq![OPEN_BRACKET] =~= seq![BANG, OPEN_BRACKET]);
    }
    assert(encode_utf8(joint) == seq![CLOSE_BRACKET, OPEN_PAREN]) by {
        assert(joint =~= seq![']'] + seq!['(']);
        lemma_bytes_of_concat(seq![']'], seq!['(']);
        lemma_bytes_of_ascii(']');
        lemma_bytes_of_ascii('(');
        assert(seq![CLOSE_BRACKET] + seq![OPEN_PAREN] =~= seq![CLOSE_BRACKET, OPEN_PAREN]);
    }
    assert(encode_utf8(close) == seq![CLOSE_PAREN]) by {
        lemma_bytes_of_ascii(')');
    }
    lemma_bytes_of_concat(pre, open);
    lemma_bytes_of_concat(pre + open, alt);
    lemma_bytes_of_concat(pre + open + alt, joint);
    lemma_bytes_of_concat(pre + open + alt + joint, path);
    lemma_bytes_of_concat(pre + open + alt + joint + path, close);
    lemma_bytes_of_concat(pre + open + alt + joint + path + close, post);
}

/// A line whose leftmost image link holds an empty path, or one that begins
/// with `https://`, has no match, whatever stands before and behind the
/// link.
pub proof fn lemma_empty_or_remote_unmatched(
    pre: Seq<u8>,
    alt: Seq<u8>,
    path: Seq<u8>,
    post: Seq<u8>,
)
    requires
        plain_link(alt, path),
        none_before(image_line(pre, alt, path, post), pre.len() as int),
        path.len() == 0 || is_remote(path),
    ensures
        no_match(image_line(pre, alt, path, post)),
{
    lemma_plain_link_range(pre, alt, path, post);
    let s = image_line(pre, alt, path, post);
    let a = written_start(pre, alt);
    assert forall|x: int, y: int| !is_match(s, x, y) by {
        if is_match(s, x, y) {
            lemma_path_range_unique(s, a, a + path.len(), x, y);
        }
    }
}

/// Replacing the path of the leftmost link leaves the rest of the line, a
/// second link too: `pre ![alt](path) post` becomes `pre ![alt](url) post`.
pub proof fn lemma_replace_keeps_rest(
    pre: Seq<u8>,
    alt: Seq<u8>,
    path: Seq<u8>,
    post: Seq<u8>,
    url: Seq<u8>,
)
    ensures
        splice(
            image_line(pre, alt, path, post),
            written_start(pre, alt),
            written_start(pre, alt) + path.len(),
            url,
        ) == image_line(pre, alt, url, post),
{
    let s = image_line(pre, alt, path, post);
    let a = written_start(pre, alt);
    assert(splice(s, a, a + path.len(), url) =~= image_line(pre, alt, url, post));
}

/// A line without any image link has no match.
pub proof fn lemma_no_link_unmatched(s: Seq<u8>)
    requires
        !has_link(s),
    ensures
        no_match(s),
{
}

/// A line that lacks one part of the image syntax has no match: no `![`
/// anywhere, or no `](` anywhere, or no `)` anywhere.
pub proof fn lemma_missing_part_unmatched(s: Seq<u8>)
    requires
        (forall|i: int| 0 <= i && i + 1 < s.len() ==> !(#[trigger] s[i] == BANG && s[i + 1] == OPEN_BRACKET))
            || (forall|j: int| !joint_at(s, j))
            || (forall|k: int| 0 <= k < s.len() ==> #[trigger] s[k] != CLOSE_PAREN),
    ensures
        !has_link(s),
        no_match(s),
{
    assert forall|i: int| !link_at(s, i) by {
        if link_at(s, i) {
            let k = choose|k: int| link_spans(s, i, k);
            let j = choose|j: int| i + 2 <= j && j + 1 < k && #[trigger] joint_at(s, j);
            assert(s[i] == BANG && s[i + 1] == OPEN_BRACKET);
            assert(s[k] == CLOSE_PAREN);
        }
    }
}

/// A line feed at the end of a line leaves its match where it was.
pub proof fn lemma_line_feed_keeps_match(s: Seq<u8>, a: int, b: int)
    ensures
        is_match(s.push(LINE_FEED), a, b) <==> is_match(s, a, b),
{
    let t = s.push(LINE_FEED);
    lemma_line_feed_keeps_path_range(s, a, b);
    if is_path_range(s, a, b) {
        lemma_path_range_bounds(s, a, b);
        assert(t.subrange(a, b) =~= s.subrange(a, b));
    }
}

} // verus!
