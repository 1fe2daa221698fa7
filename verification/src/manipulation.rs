//! Rewriting a whole document, line by line.
//!
//! The work on a document comes in two passes with the uploads between
//! them: `find_images` ends every line and names the local image paths,
//! and `md_manipulate` takes what each upload gave, splices the hosted URLs
//! in and keeps the tally. Lines are never added, dropped or reordered.

use crate::link::{lemma_path_range_bounds, LINE_FEED};
use crate::matcher::{
    find_match, has_match, is_match, lemma_line_feed_keeps_match, lemma_match_on_boundaries,
    lemma_match_unique, lemma_splice_round_trip, match_end, match_start, splice, MatchedLine,
};
use crate::response::FailedCases;
use crate::result::MdManipulationResult;
use crate::text::{lemma_bytes_of_ascii, lemma_bytes_of_concat};
use vstd::prelude::*;
use vstd::string::{StringExecFns, StringSliceAdditionalSpecFns};
use vstd::utf8::*;

verus! {

/// The bytes of a hosted URL, or nothing where the upload failed.
pub open spec fn hosted(outcome: Result<String, FailedCases>) -> Option<Seq<u8>> {
    match outcome {
        Ok(url) => Some(encode_utf8(url@)),
        Err(_) => None,
    }
}

/// `path` names the local image path of the line `s`, or says that there is none.
pub open spec fn named_path(s: Seq<u8>, path: Option<String>) -> bool {
    match path {
        Some(p) => has_match(s) && encode_utf8(p@) == s.subrange(match_start(s), match_end(s)),
        None => !has_match(s),
    }
}

/// What a line becomes: with a match and a hosted URL, the line with the
/// URL in place of the path; else the line as it was.
pub open spec fn rewritten(s: Seq<u8>, url: Option<Seq<u8>>) -> Seq<u8> {
    match url {
        Some(u) => if has_match(s) {
            splice(s, match_start(s), match_end(s), u)
        } else {
            s
        },
        None => s,
    }
}

/// Rewriting touches the path of a line and nothing else: what stood
/// before the match and behind it stays, the URL stands between, and a line
/// without a match or without a URL stays whole.
pub proof fn lemma_rewrite_touches_path_only(s: Seq<u8>, url: Option<Seq<u8>>)
    ensures
        !has_match(s) || url is None ==> rewritten(s, url) == s,
        has_match(s) && url is Some ==> {
            let a = match_start(s);
            let b = match_end(s);
            let u = url->Some_0;
            let r = rewritten(s, url);
            &&& 0 <= a <= b <= s.len()
            &&& r.len() == s.len() - (b - a) + u.len()
            &&& r.subrange(0, a) == s.subrange(0, a)
            &&& r.subrange(a, a + u.len()) == u
            &&& r.subrange(a + u.len(), r.len() as int) == s.subrange(b, s.len() as int)
        },
{
    if has_match(s) && url is Some {
        let (a, b) = choose|a: int, b: int| is_match(s, a, b);
        lemma_match_unique(s, a, b);
        lemma_path_range_bounds(s, a, b);
        lemma_splice_round_trip(s, a, b, url->Some_0);
    }
}

/// How many of the first `n` lines hold a match.
pub open spec fn count_matched(lines: Seq<String>, n: int) -> nat
    decreases n,
{
    if n <= 0 {
        0
    } else {
        count_matched(lines, n - 1) + if has_match(encode_utf8(lines[n - 1]@)) {
            1nat
        } else {
            0nat
        }
    }
}

/// How many of the first `n` lines hold a match whose upload gave a URL.
pub open spec fn count_done(
    lines: Seq<String>,
    outcomes: Seq<Result<String, FailedCases>>,
    n: int,
) -> nat
    decreases n,
{
    if n <= 0 {
        0
    } else {
        count_done(lines, outcomes, n - 1) + if has_match(encode_utf8(lines[n - 1]@))
            && outcomes[n - 1] is Ok {
            1nat
        } else {
            0nat
        }
    }
}

/// How many of the first `n` lines hold a match whose upload failed.
pub open spec fn count_failed(
    lines: Seq<String>,
    outcomes: Seq<Result<String, FailedCases>>,
    n: int,
) -> nat
    decreases n,
{
    if n <= 0 {
        0
    } else {
        count_failed(lines, outcomes, n - 1) + if has_match(encode_utf8(lines[n - 1]@))
            && outcomes[n - 1] is Err {
            1nat
        } else {
            0nat
        }
    }
}

/// Every matched line is counted once, as done or as failed.
pub proof fn lemma_counts_add_up(
    lines: Seq<String>,
    outcomes: Seq<Result<String, FailedCases>>,
    n: int,
)
    ensures
        count_done(lines, outcomes, n) + count_failed(lines, outcomes, n) == count_matched(lines, n),
        count_matched(lines, n) <= if n <= 0 { 0 } else { n },
    decreases n,
{
    if n > 0 {
        lemma_counts_add_up(lines, outcomes, n - 1);
    }
}

/// Ends a line with a line feed.
pub fn end_line(line: &mut String)
    ensures
        final(line)@ == old(line)@.push('\n'),
{
    proof {
        reveal_strlit("\n");
    }
    line.append("\n");
    assert(line@ =~= old(line)@.push('\n'));
}

/// The bytes of an ended line are the bytes of the line and one line feed.
pub proof fn lemma_ended_line_bytes(line: Seq<char>)
    ensures
        encode_utf8(line.push('\n')) == encode_utf8(line).push(LINE_FEED),
{
    assert(line.push('\n') =~= line + seq!['\n']);
    lemma_bytes_of_concat(line, seq!['\n']);
    lemma_bytes_of_ascii('\n');
    assert(encode_utf8(line) + seq![LINE_FEED] =~= encode_utf8(line).push(LINE_FEED));
}

/// Ending a line changes nothing about its match: the ended line holds a
/// match where the line held one, at the same place.
pub proof fn lemma_end_line_keeps_match(line: Seq<char>)
    ensures
        has_match(encode_utf8(line.push('\n'))) == has_match(encode_utf8(line)),
        has_match(encode_utf8(line)) ==> match_start(encode_utf8(line.push('\n'))) == match_start(
            encode_utf8(line),
        ) && match_end(encode_utf8(line.push('\n'))) == match_end(encode_utf8(line)),
{
    let s = encode_utf8(line);
    let t = encode_utf8(line.push('\n'));
    lemma_ended_line_bytes(line);
    if has_match(s) {
        let (a, b) = choose|a: int, b: int| is_match(s, a, b);
        lemma_line_feed_keeps_match(s, a, b);
        lemma_match_unique(s, a, b);
        lemma_match_unique(t, a, b);
    }
    if has_match(t) {
        let (a, b) = choose|a: int, b: int| is_match(t, a, b);
        lemma_line_feed_keeps_match(s, a, b);
        lemma_match_unique(s, a, b);
    }
}

/// The local image path of a line as text, if the line holds one.
pub fn image_path(line: &String) -> (path: Option<String>)
    ensures
        match path {
            Some(p) => has_match(encode_utf8(line@)) && encode_utf8(p@) == encode_utf8(
                line@,
            ).subrange(match_start(encode_utf8(line@)), match_end(encode_utf8(line@))),
            None => !has_match(encode_utf8(line@)),
        },
{
    let text = line.as_str();
    let ghost s = encode_utf8(line@);
    proof {
        encode_utf8_valid_utf8(line@);
    }
    match find_match(text.as_bytes()) {
        Some((a, b)) => {
            proof {
                lemma_match_unique(s, a as int, b as int);
                lemma_match_on_boundaries(s, a as int, b as int);
            }
            let (_, tail) = text.split_at(a);
            proof {
                valid_utf8_split(s, a as int);
                valid_utf8_split(s, b as int);
                let t = s.subrange(a as int, s.len() as int);
                assert(t =~= tail.spec_bytes());
                if a < b {
                    is_char_boundary_iff_not_is_continuation_byte(s, b as int);
                    assert(t[b - a] == s[b as int]);
                    is_char_boundary_iff_not_is_continuation_byte(t, b - a);
                }
            }
            let (path, _) = tail.split_at(b - a);
            assert(path.spec_bytes() =~= s.subrange(a as int, b as int));
            Some(path.to_owned())
        },
        None => None,
    }
}

/// Ends every line of a document with a line feed and names, line by line,
/// the local image path that waits for its upload.
pub fn find_images(lines: &mut Vec<String>) -> (paths: Vec<Option<String>>)
    ensures
        final(lines).len() == old(lines).len(),
        paths.len() == old(lines).len(),
        forall|i: int|
            0 <= i < old(lines).len() ==> #[trigger] final(lines)@[i]@ == old(lines)@[i]@.push('\n'),
        forall|i: int|
            0 <= i < old(lines).len() ==> named_path(
                encode_utf8(final(lines)@[i]@),
                #[trigger] paths@[i],
            ),
{
    let n = lines.len();
    let mut paths: Vec<Option<String>> = Vec::new();
    let mut i: usize = 0;
    while i < n
        invariant
            i <= n,
            n == lines.len(),
            n == old(lines).len(),
            paths.len() == i,
            forall|k: int| 0 <= k < i ==> #[trigger] lines@[k]@ == old(lines)@[k]@.push('\n'),
            forall|k: int| i <= k < n ==> #[trigger] lines@[k] == old(lines)@[k],
            forall|k: int|
                0 <= k < i ==> named_path(encode_utf8(lines@[k]@), #[trigger] paths@[k]),
        decreases n - i,
    {
        end_line(&mut lines[i]);
        let path = image_path(&lines[i]);
        paths.push(path);
        i += 1;
    }
    paths
}

/// Applies the outcome of one upload to its line: a hosted URL takes the
/// place of the path, a failure leaves the line and is handed on.
pub fn manipulate_mthed_line(mth: &mut MatchedLine<'_>, outcome: &Result<String, FailedCases>) -> (r:
    Result<(), FailedCases>)
    requires
        old(mth).wf(),
    ensures
        final(mth).range == old(mth).range,
        *final(final(mth).line) == *final(old(mth).line),
        match *outcome {
            Ok(url) => r is Ok && encode_utf8(final(mth).line@) == splice(
                encode_utf8(old(mth).line@),
                old(mth).range.start as int,
                old(mth).range.end as int,
                encode_utf8(url@),
            ),
            Err(e) => r == Err::<(), FailedCases>(e) && final(mth).line@ == old(mth).line@,
        },
{
    match outcome {
        Ok(url) => {
            mth.replace(url.as_str());
            Ok(())
        },
        Err(e) => Err(*e),
    }
}

/// Rewrites the lines of a document with the outcomes of the uploads, one
/// outcome per line, and counts every matched line in `res`. The outcome of
/// a line without a match is not looked at.
pub fn md_manipulate(
    lines: &mut Vec<String>,
    outcomes: &Vec<Result<String, FailedCases>>,
    res: &mut MdManipulationResult,
)
    requires
        outcomes.len() == old(lines).len(),
        old(res).wf(),
        old(res).has_room(old(lines).len() as nat),
    ensures
        final(lines).len() == old(lines).len(),
        forall|i: int|
            0 <= i < old(lines).len() ==> encode_utf8(#[trigger] final(lines)@[i]@) == rewritten(
                encode_utf8(old(lines)@[i]@),
                hosted(outcomes@[i]),
            ),
        final(res).wf(),
        final(res).total_spec() == old(res).total_spec() + count_matched(
            old(lines)@,
            old(lines).len() as int,
        ),
        final(res).done_spec() == old(res).done_spec() + count_done(
            old(lines)@,
            outcomes@,
            old(lines).len() as int,
        ),
        final(res).failed_spec() == old(res).failed_spec() + count_failed(
            old(lines)@,
            outcomes@,
            old(lines).len() as int,
        ),
{
    let n = lines.len();
    let mut i: usize = 0;
    while i < n
        invariant
            i <= n,
            n == lines.len(),
            n == old(lines).len(),
            n == outcomes.len(),
            forall|k: int|
                0 <= k < i ==> encode_utf8(#[trigger] lines@[k]@) == rewritten(
                    encode_utf8(old(lines)@[k]@),
                    hosted(outcomes@[k]),
                ),
            forall|k: int| i <= k < n ==> #[trigger] lines@[k] == old(lines)@[k],
            res.wf(),
            old(res).has_room(n as nat),
            res.total_spec() == old(res).total_spec() + count_matched(old(lines)@, i as int),
            res.done_spec() == old(res).done_spec() + count_done(old(lines)@, outcomes@, i as int),
            res.failed_spec() == old(res).failed_spec() + count_failed(
                old(lines)@,
                outcomes@,
                i as int,
            ),
        decreases n - i,
    {
        let ghost before = encode_utf8(lines@[i as int]@);
        proof {
            lemma_counts_add_up(old(lines)@, outcomes@, i as int);
        }
        match MatchedLine::new(&mut lines[i]) {
            Some(mut mth) => {
                proof {
                    lemma_match_unique(before, mth.range.start as int, mth.range.end as int);
                }
                let r = manipulate_mthed_line(&mut mth, &outcomes[i]);
                res.res_handling(&r);
            },
            None => {},
        }
        i += 1;
    }
}

} // verus!
