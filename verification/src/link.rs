//! The image-link grammar `![alt](path)` on the UTF-8 bytes of one line.
//!
//! An image link opens with `![`, holds a joint `](` somewhere after it and
//! a `)` behind the joint; no line feed stands between `![` and that `)`.
//! Of all links of a line the leftmost one counts. Its alt text ends at the
//! first joint after `![` and its path at the first `)` behind that joint,
//! so whatever follows the link on its line, a second link too, is no part
//! of it.

use vstd::prelude::*;

verus! {

/// `!`
pub const BANG: u8 = 0x21;

/// `[`
pub const OPEN_BRACKET: u8 = 0x5b;

/// `]`
pub const CLOSE_BRACKET: u8 = 0x5d;

/// `(`
pub const OPEN_PAREN: u8 = 0x28;

/// `)`
pub const CLOSE_PAREN: u8 = 0x29;

/// The line feed, the one byte that neither alt text nor path may hold.
pub const LINE_FEED: u8 = 0x0a;

/// No line feed stands in `s[lo..hi)`.
pub open spec fn unbroken(s: Seq<u8>, lo: int, hi: int) -> bool {
    forall|m: int| lo <= m < hi ==> #[trigger] s[m] != LINE_FEED
}

/// The two bytes `](` stand at `j`.
pub open spec fn joint_at(s: Seq<u8>, j: int) -> bool {
    0 <= j && j + 1 < s.len() && s[j] == CLOSE_BRACKET && s[j + 1] == OPEN_PAREN
}

/// An image link opens at `i` and can close at `k`: `![` at `i`, a joint
/// between them, `)` at `k`, and no line feed from the alt text up to `k`.
pub open spec fn link_spans(s: Seq<u8>, i: int, k: int) -> bool {
    &&& 0 <= i && i + 1 < s.len() && k < s.len()
    &&& s[i] == BANG && s[i + 1] == OPEN_BRACKET
    &&& s[k] == CLOSE_PAREN
    &&& exists|j: int| i + 2 <= j && j + 1 < k && #[trigger] joint_at(s, j)
    &&& unbroken(s, i + 2, k)
}

/// An image link opens at `i`.
pub open spec fn link_at(s: Seq<u8>, i: int) -> bool {
    exists|k: int| link_spans(s, i, k)
}

/// The leftmost image link of the line opens at `i`.
pub open spec fn first_link(s: Seq<u8>, i: int) -> bool {
    link_at(s, i) && forall|h: int| 0 <= h < i ==> !link_at(s, h)
}

/// The alt text of the link that opens at `i` ends at `j`: the first joint
/// after `![` stands there.
pub open spec fn first_joint(s: Seq<u8>, i: int, j: int) -> bool {
    &&& i + 2 <= j
    &&& joint_at(s, j)
    &&& forall|m: int| i + 2 <= m < j ==> !#[trigger] joint_at(s, m)
}

/// The path behind the joint at `j` ends at `k`: the first `)` behind the
/// joint stands there.
pub open spec fn first_close(s: Seq<u8>, j: int, k: int) -> bool {
    &&& j + 2 <= k < s.len()
    &&& s[k] == CLOSE_PAREN
    &&& forall|m: int| j + 2 <= m < k ==> #[trigger] s[m] != CLOSE_PAREN
}

/// `[a, b)` is where the path of the line's leftmost image link stands:
/// right behind the link's first joint, up to the first `)` from there.
pub open spec fn is_path_range(s: Seq<u8>, a: int, b: int) -> bool {
    exists|i: int| first_link(s, i) && first_joint(s, i, a - 2) && first_close(s, a - 2, b)
}

/// The line holds an image link at all.
pub open spec fn has_link(s: Seq<u8>) -> bool {
    exists|i: int| link_at(s, i)
}

/// A line has at most one path range.
pub proof fn lemma_path_range_unique(s: Seq<u8>, a1: int, b1: int, a2: int, b2: int)
    requires
        is_path_range(s, a1, b1),
        is_path_range(s, a2, b2),
    ensures
        a1 == a2,
        b1 == b2,
{
    let i1 = choose|i: int| first_link(s, i) && first_joint(s, i, a1 - 2) && first_close(s, a1 - 2, b1);
    let i2 = choose|i: int| first_link(s, i) && first_joint(s, i, a2 - 2) && first_close(s, a2 - 2, b2);
    assert(i1 == i2) by {
        if i1 < i2 {
            assert(!link_at(s, i1));
        }
        if i2 < i1 {
            assert(!link_at(s, i2));
        }
    }
    assert(a1 == a2) by {
        if a1 < a2 {
            assert(!joint_at(s, a1 - 2));
        }
        if a2 < a1 {
            assert(!joint_at(s, a2 - 2));
        }
    }
    assert(b1 == b2) by {
        if b1 < b2 {
            assert(s[b1] != CLOSE_PAREN);
        }
        if b2 < b1 {
            assert(s[b2] != CLOSE_PAREN);
        }
    }
}

/// A path range lies inside the line between the `(` of a joint and a `)`,
/// and holds neither a `)` nor a line feed.
pub proof fn lemma_path_range_bounds(s: Seq<u8>, a: int, b: int)
    requires
        is_path_range(s, a, b),
    ensures
        4 <= a <= b < s.len(),
        s[a - 2] == CLOSE_BRACKET,
        s[a - 1] == OPEN_PAREN,
        s[b] == CLOSE_PAREN,
        unbroken(s, a, b),
        forall|m: int| a <= m < b ==> #[trigger] s[m] != CLOSE_PAREN,
{
    let i = choose|i: int| first_link(s, i) && first_joint(s, i, a - 2) && first_close(s, a - 2, b);
    let k = choose|k: int| link_spans(s, i, k);
    let j = choose|j: int| i + 2 <= j && j + 1 < k && #[trigger] joint_at(s, j);
    // The link's first joint stands at or before any of its joints, and the
    // first `)` behind it at or before any `)` that closes the link.
    if j < a - 2 {
        assert(!joint_at(s, j));
    }
    if k < b {
        assert(s[k] != CLOSE_PAREN);
    }
}

/// The first line feed at or after `from`, or the end of the line.
fn line_end(s: &[u8], from: usize) -> (e: usize)
    requires
        from <= s.len(),
    ensures
        from <= e <= s.len(),
        unbroken(s@, from as int, e as int),
        e < s.len() ==> s@[e as int] == LINE_FEED,
{
    let mut e: usize = from;
    while e < s.len() && s[e] != LINE_FEED
        invariant
            from <= e <= s.len(),
            unbroken(s@, from as int, e as int),
        decreases s.len() - e,
    {
        e += 1;
    }
    e
}

/// The first joint `](` that stands at an index of `[lo, hi)`.
fn joint_from(s: &[u8], lo: usize, hi: usize) -> (r: Option<usize>)
    requires
        lo <= hi < s.len(),
    ensures
        match r {
            Some(j) => lo <= j < hi && joint_at(s@, j as int) && forall|m: int|
                lo <= m < j ==> !#[trigger] joint_at(s@, m),
            None => forall|m: int| lo <= m < hi ==> !#[trigger] joint_at(s@, m),
        },
{
    let mut j: usize = lo;
    while j < hi
        invariant
            lo <= j <= hi < s.len(),
            forall|m: int| lo <= m < j ==> !#[trigger] joint_at(s@, m),
        decreases hi - j,
    {
        if s[j] == CLOSE_BRACKET && s[j + 1] == OPEN_PAREN {
            return Some(j);
        }
        j += 1;
    }
    None
}

/// The first `)` in `s[lo..hi)`.
fn close_from(s: &[u8], lo: usize, hi: usize) -> (r: Option<usize>)
    requires
        lo <= hi <= s.len(),
    ensures
        match r {
            Some(k) => lo <= k < hi && s@[k as int] == CLOSE_PAREN && forall|m: int|
                lo <= m < k ==> #[trigger] s@[m] != CLOSE_PAREN,
            None => forall|m: int| lo <= m < hi ==> #[trigger] s@[m] != CLOSE_PAREN,
        },
{
    let mut k: usize = lo;
    while k < hi
        invariant
            lo <= k <= hi <= s.len(),
            forall|m: int| lo <= m < k ==> #[trigger] s@[m] != CLOSE_PAREN,
        decreases hi - k,
    {
        if s[k] == CLOSE_PAREN {
            return Some(k);
        }
        k += 1;
    }
    None
}

/// The path of the link that opens at `i`, if one opens there.
fn path_of(s: &[u8], i: usize) -> (r: Option<(usize, usize)>)
    requires
        i + 1 < s.len(),
        s@[i as int] == BANG,
        s@[i + 1] == OPEN_BRACKET,
    ensures
        match r {
            Some((a, b)) => link_at(s@, i as int) && first_joint(s@, i as int, a - 2)
                && first_close(s@, a - 2, b as int),
            None => !link_at(s@, i as int),
        },
{
    let e = line_end(s, i + 2);
    // Every close of a link at `i` is a `)` before the first line feed.
    assert forall|k: int| link_spans(s@, i as int, k) implies i + 2 <= k < e by {
        if link_spans(s@, i as int, k) && k >= e {
            assert(s@[e as int] == LINE_FEED);
        }
    }
    let hi = if e < s.len() {
        e
    } else {
        s.len() - 1
    };
    if hi < i + 2 {
        return None;
    }
    match joint_from(s, i + 2, hi) {
        Some(j) => match close_from(s, j + 2, e) {
            Some(k) => {
                assert(link_spans(s@, i as int, k as int));
                Some((j + 2, k))
            },
            None => {
                assert forall|m: int| !link_spans(s@, i as int, m) by {
                    if link_spans(s@, i as int, m) {
                        let x = choose|x: int| i + 2 <= x && x + 1 < m && #[trigger] joint_at(s@, x);
                        assert(j <= x);
                        assert(s@[m] != CLOSE_PAREN);
                    }
                }
                None
            },
        },
        None => {
            assert forall|m: int| !link_spans(s@, i as int, m) by {
                if link_spans(s@, i as int, m) {
                    let x = choose|x: int| i + 2 <= x && x + 1 < m && #[trigger] joint_at(s@, x);
                    assert(i + 2 <= x < hi);
                }
            }
            None
        },
    }
}

/// Finds the path of the leftmost image link: the bytes `s[a..b)` between
/// the link's first joint and the first `)` behind it.
pub fn locate_path(s: &[u8]) -> (r: Option<(usize, usize)>)
    ensures
        match r {
            Some((a, b)) => is_path_range(s@, a as int, b as int),
            None => !has_link(s@),
        },
{
    let mut i: usize = 0;
    while i < s.len() && i + 1 < s.len()
        invariant
            i <= s.len(),
            forall|h: int| 0 <= h < i ==> !link_at(s@, h),
        decreases s.len() - i,
    {
        if s[i] == BANG && s[i + 1] == OPEN_BRACKET {
            match path_of(s, i) {
                Some((a, b)) => {
                    assert(first_link(s@, i as int));
                    return Some((a, b));
                },
                None => {},
            }
        }
        i += 1;
    }
    assert forall|h: int| !link_at(s@, h) by {
        if link_at(s@, h) {
            let k = choose|k: int| link_spans(s@, h, k);
            assert(h + 1 < s.len());
        }
    }
    None
}

/// The line `pre ![alt](path) post`.
pub open spec fn image_line(pre: Seq<u8>, alt: Seq<u8>, path: Seq<u8>, post: Seq<u8>) -> Seq<u8> {
    pre + seq![BANG, OPEN_BRACKET] + alt + seq![CLOSE_BRACKET, OPEN_PAREN] + path
        + seq![CLOSE_PAREN] + post
}

/// Where `path` begins in the line `pre ![alt](path) post`.
pub open spec fn written_start(pre: Seq<u8>, alt: Seq<u8>) -> int {
    (pre.len() + alt.len() + 4) as int
}

/// `alt` and `path` are the alt text and the path of a link as the grammar
/// reads it: `alt` holds no joint `](` and no line feed, `path` holds no
/// `)` and no line feed.
pub open spec fn plain_link(alt: Seq<u8>, path: Seq<u8>) -> bool {
    &&& forall|m: int| 0 <= m < alt.len() ==> #[trigger] alt[m] != LINE_FEED
    &&& forall|m: int|
        0 <= m && m + 1 < alt.len() ==> !(#[trigger] alt[m] == CLOSE_BRACKET && alt[m + 1]
            == OPEN_PAREN)
    &&& forall|m: int|
        0 <= m < path.len() ==> #[trigger] path[m] != LINE_FEED && path[m] != CLOSE_PAREN
}

/// No image link opens in the first `n` bytes of the line.
pub open spec fn none_before(s: Seq<u8>, n: int) -> bool {
    forall|h: int| 0 <= h < n ==> !link_at(s, h)
}

/// In the line `pre ![alt](path) post` the link written out opens.
pub proof fn lemma_written_link_opens(pre: Seq<u8>, alt: Seq<u8>, path: Seq<u8>, post: Seq<u8>)
    requires
        plain_link(alt, path),
    ensures
        link_at(image_line(pre, alt, path, post), pre.len() as int),
        first_joint(
            image_line(pre, alt, path, post),
            pre.len() as int,
            written_start(pre, alt) - 2,
        ),
        first_close(
            image_line(pre, alt, path, post),
            written_start(pre, alt) - 2,
            written_start(pre, alt) + path.len(),
        ),
        image_line(pre, alt, path, post).subrange(
            written_start(pre, alt),
            written_start(pre, alt) + path.len(),
        ) == path,
{
    let s = image_line(pre, alt, path, post);
    let i = pre.len() as int;
    let j = i + 2 + alt.len();
    let a = j + 2;
    let k = a + path.len();
    assert(s.len() == k + 1 + post.len());
    assert(s[i] == BANG && s[i + 1] == OPEN_BRACKET);
    assert forall|m: int| i + 2 <= m < j implies s[m] == alt[m - i - 2] by {}
    assert(s[j] == CLOSE_BRACKET && s[j + 1] == OPEN_PAREN);
    assert forall|m: int| a <= m < k implies s[m] == path[m - a] by {}
    assert(s[k] == CLOSE_PAREN);
    assert(s.subrange(a, k) =~= path);
    assert(joint_at(s, j));
    assert(unbroken(s, i + 2, k)) by {
        assert forall|m: int| i + 2 <= m < k implies #[trigger] s[m] != LINE_FEED by {
            if m < j {
                assert(s[m] == alt[m - i - 2]);
            } else if m >= a {
                assert(s[m] == path[m - a]);
            }
        }
    }
    assert(link_spans(s, i, k));
    assert forall|m: int| i + 2 <= m < j implies !#[trigger] joint_at(s, m) by {
        assert(s[m] == alt[m - i - 2]);
        if m + 1 < j {
            assert(s[m + 1] == alt[m + 1 - i - 2]);
        }
    }
    assert forall|m: int| j + 2 <= m < k implies #[trigger] s[m] != CLOSE_PAREN by {
        assert(s[m] == path[m - a]);
    }
}

/// In a line `pre ![alt](path) post` whose leftmost image link is the one
/// written out, the path range is where `path` was written, whatever
/// follows the link.
pub proof fn lemma_plain_link_range(pre: Seq<u8>, alt: Seq<u8>, path: Seq<u8>, post: Seq<u8>)
    requires
        plain_link(alt, path),
        none_before(image_line(pre, alt, path, post), pre.len() as int),
    ensures
        is_path_range(
            image_line(pre, alt, path, post),
            written_start(pre, alt),
            written_start(pre, alt) + path.len(),
        ),
        image_line(pre, alt, path, post).subrange(
            written_start(pre, alt),
            written_start(pre, alt) + path.len(),
        ) == path,
{
    lemma_written_link_opens(pre, alt, path, post);
    let s = image_line(pre, alt, path, post);
    assert(first_link(s, pre.len() as int));
}

/// Where no `![` stands before the link written out, that link is the
/// leftmost of its line.
pub proof fn lemma_none_before_without_opening(
    pre: Seq<u8>,
    alt: Seq<u8>,
    path: Seq<u8>,
    post: Seq<u8>,
)
    requires
        forall|h: int|
            0 <= h && h + 1 < pre.len() ==> !(#[trigger] pre[h] == BANG && pre[h + 1]
                == OPEN_BRACKET),
    ensures
        none_before(image_line(pre, alt, path, post), pre.len() as int),
{
    let s = image_line(pre, alt, path, post);
    let i = pre.len() as int;
    assert(s[i] == BANG);
    assert forall|h: int| 0 <= h < i implies !link_at(s, h) by {
        assert(s[h] == pre[h]);
        if h + 1 < i {
            assert(s[h + 1] == pre[h + 1]);
        }
    }
}

/// A line feed at the end of a line changes nothing about its image links.
pub proof fn lemma_line_feed_keeps_spans(s: Seq<u8>, i: int, k: int)
    ensures
        link_spans(s.push(LINE_FEED), i, k) <==> link_spans(s, i, k),
{
    let t = s.push(LINE_FEED);
    assert forall|m: int| 0 <= m < s.len() implies t[m] == s[m] by {}
    if link_spans(s, i, k) {
        let j = choose|j: int| i + 2 <= j && j + 1 < k && #[trigger] joint_at(s, j);
        assert(joint_at(t, j));
        assert(link_spans(t, i, k));
    }
    if link_spans(t, i, k) {
        assert(k < s.len());
        let j = choose|j: int| i + 2 <= j && j + 1 < k && #[trigger] joint_at(t, j);
        assert(joint_at(s, j));
        assert(link_spans(s, i, k));
    }
}

/// A line feed at the end of a line leaves its path range where it was.
pub proof fn lemma_line_feed_keeps_path_range(s: Seq<u8>, a: int, b: int)
    ensures
        is_path_range(s.push(LINE_FEED), a, b) <==> is_path_range(s, a, b),
{
    let t = s.push(LINE_FEED);
    assert forall|i: int, k: int| link_spans(t, i, k) <==> link_spans(s, i, k) by {
        lemma_line_feed_keeps_spans(s, i, k);
    }
    assert forall|i: int| link_at(t, i) <==> link_at(s, i) by {
        if link_at(t, i) {
            let k = choose|k: int| link_spans(t, i, k);
            assert(link_spans(s, i, k));
        }
        if link_at(s, i) {
            let k = choose|k: int| link_spans(s, i, k);
            assert(link_spans(t, i, k));
        }
    }
    assert forall|i: int| first_link(t, i) <==> first_link(s, i) by {}
    assert forall|m: int| 0 <= m < s.len() implies t[m] == s[m] by {}
    assert forall|m: int| joint_at(t, m) <==> joint_at(s, m) by {}
    if is_path_range(s, a, b) {
        let i = choose|i: int| first_link(s, i) && first_joint(s, i, a - 2) && first_close(s, a - 2, b);
        assert(first_joint(t, i, a - 2));
        assert(first_close(t, a - 2, b));
        assert(first_link(t, i));
    }
    if is_path_range(t, a, b) {
        let i = choose|i: int| first_link(t, i) && first_joint(t, i, a - 2) && first_close(t, a - 2, b);
        assert(t[b] == CLOSE_PAREN);
        assert(b < s.len());
        assert(first_joint(s, i, a - 2));
        assert(first_close(s, a - 2, b));
        assert(first_link(s, i));
    }
}

} // verus!
