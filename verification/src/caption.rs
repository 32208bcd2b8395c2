//! Captions: the quotation round the text of a long post.
use crate::text::{chars_of, find_chars, slice_chars};
use vstd::prelude::*;

verus! {

/// The text of a caption before a quotation, the quotation, and what follows it.
pub open spec fn quoted(caption: Seq<char>, from: int, to: int) -> Seq<char> {
    caption.take(from) + "<blockquote expandable>"@ + caption.subrange(from, to)
        + "</blockquote>"@ + caption.skip(to)
}

/// Whether the end of a caption, from a place on, is the beginning of a text and
/// an ellipsis: what is left of the text after the caption was cut.
pub open spec fn cut_from(caption: Seq<char>, text: Seq<char>, from: int) -> bool {
    &&& 0 <= from < caption.len() - 1
    &&& caption.last() == '…'
    &&& crate::text::begins_with(text, caption.subrange(from, caption.len() - 1))
}

/// The first place from which on the caption is the cut text.
pub open spec fn cut_at(caption: Seq<char>, text: Seq<char>, from: int) -> bool {
    cut_from(caption, text, from) && forall|j: int|
        0 <= j < from ==> !#[trigger] cut_from(caption, text, j)
}

/// Whether a post is long enough for its text to be quoted. A threshold of
/// nothing turns quoting off.
pub open spec fn is_long(text: Seq<char>, threshold: int) -> bool {
    threshold > 0 && text.len() >= threshold
}

/// What quoting makes of a caption. The text is quoted where it stands whole, or
/// else where the caption was cut within it. Quotations do not nest.
pub open spec fn quotes(caption: Seq<char>, text: Seq<char>, threshold: int, r: Seq<char>) -> bool {
    if !is_long(text, threshold) || crate::text::has(caption, "<blockquote"@) {
        r == caption
    } else if crate::text::has(caption, text) {
        exists|i: int|
            #[trigger] crate::text::first_at(caption, text, i) && r == quoted(
                caption,
                i,
                i + text.len(),
            )
    } else if exists|i: int| cut_from(caption, text, i) {
        exists|i: int|
            #[trigger] cut_at(caption, text, i) && r == quoted(caption, i, caption.len() as int)
    } else {
        r == caption
    }
}

fn quote_at(caption: &Vec<char>, from: usize, to: usize) -> (r: String)
    requires
        from <= to <= caption@.len(),
    ensures
        r@ == quoted(caption@, from as int, to as int),
{
    let mut out = slice_chars(caption, 0, from);
    assert(caption@.subrange(0, from as int) =~= caption@.take(from as int));
    out.append("<blockquote expandable>");
    out.append(slice_chars(caption, from, to).as_str());
    out.append("</blockquote>");
    out.append(slice_chars(caption, to, caption.len()).as_str());
    assert(caption@.subrange(to as int, caption@.len() as int) =~= caption@.skip(to as int));
    out
}

/// Whether the characters of `v` from a place on, all but the last, begin `text`.
fn begins(text: &Vec<char>, v: &Vec<char>, from: usize) -> (r: bool)
    requires
        from < v@.len(),
    ensures
        r == crate::text::begins_with(text@, v@.subrange(from as int, v@.len() - 1)),
{
    let total: usize = v.len();
    let n: usize = total - 1 - from;
    let ghost piece = v@.subrange(from as int, v@.len() - 1);
    if n > text.len() {
        return false;
    }
    let mut i: usize = 0;
    while i < n
        invariant
            total == v@.len(),
            n == total - 1 - from,
            n <= text@.len(),
            from < v@.len(),
            i <= n,
            piece == v@.subrange(from as int, v@.len() - 1),
            text@.take(i as int) == piece.take(i as int),
        decreases n - i,
    {
        assert(piece[i as int] == v@[from + i]);
        if text[i] != v[from + i] {
            proof {
                if crate::text::begins_with(text@, piece) {
                    assert(text@.subrange(0, piece.len() as int)[i as int] == text@[i as int]);
                }
            }
            return false;
        }
        i = i + 1;
        assert(text@.take(i as int) =~= text@.take(i - 1).push(text@[i - 1]));
        assert(piece.take(i as int) =~= piece.take(i - 1).push(piece[i - 1]));
    }
    assert(piece.take(i as int) =~= piece);
    assert(text@.subrange(0, piece.len() as int) =~= text@.take(i as int));
    true
}

/// Quotes the text of a long post within its caption.
pub fn quote_long_caption(caption: &str, text: &str, threshold: usize) -> (r: String)
    ensures
        quotes(caption@, text@, threshold as int, r@),
{
    let words = chars_of(text);
    if threshold == 0 || words.len() < threshold || crate::text::contains(caption, "<blockquote") {
        return caption.to_owned();
    }
    let v = chars_of(caption);
    let n: usize = v.len();
    match find_chars(&v, &words) {
        Some(i) => {
            assert(crate::text::first_at(caption@, text@, i as int));
            return quote_at(&v, i, i + words.len());
        },
        None => {},
    }
    let mut i: usize = 0;
    if n > 0 && v[n - 1] == '…' {
        while i < n - 1
            invariant
                n == v@.len(),
                n > 0,
                v@ == caption@,
                words@ == text@,
                v@.last() == '…',
                is_long(text@, threshold as int),
                !(crate::text::has(caption@, "<blockquote"@)),
                !(crate::text::has(caption@, text@)),
                i <= n - 1,
                forall|j: int| 0 <= j < i ==> !#[trigger] cut_from(caption@, text@, j),
            decreases n - i,
        {
            if begins(&words, &v, i) {
                assert(cut_from(caption@, text@, i as int));
                assert(cut_at(caption@, text@, i as int));
                return quote_at(&v, i, n);
            }
            i = i + 1;
        }
    }
    assert(!(exists|j: int| cut_from(caption@, text@, j)));
    caption.to_owned()
}

proof fn lemma_quoted_has_a_quotation(caption: Seq<char>, from: int, to: int)
    requires
        0 <= from <= to <= caption.len(),
    ensures
        crate::text::has(quoted(caption, from, to), "<blockquote"@),
{
    reveal_strlit("<blockquote");
    reveal_strlit("<blockquote expandable>");
    let r = quoted(caption, from, to);
    assert(r.subrange(from, from + "<blockquote"@.len()) =~= "<blockquote"@);
    assert(crate::text::occurs_at(r, "<blockquote"@, from));
}

/// A caption that already holds a quotation is left as it is, and quoting twice
/// is quoting once.
pub proof fn law_quotations_do_not_nest(
    caption: Seq<char>,
    text: Seq<char>,
    threshold: int,
    r: Seq<char>,
    again: Seq<char>,
)
    requires
        quotes(caption, text, threshold, r),
        quotes(r, text, threshold, again),
    ensures
        crate::text::has(caption, "<blockquote"@) ==> r == caption,
        again == r,
{
    if is_long(text, threshold) && !(crate::text::has(caption, "<blockquote"@)) {
        if crate::text::has(caption, text) {
            let i = choose|i: int|
                #[trigger] crate::text::first_at(caption, text, i) && r == quoted(
                    caption,
                    i,
                    i + text.len(),
                );
            lemma_quoted_has_a_quotation(caption, i, i + text.len());
        } else if exists|i: int| cut_from(caption, text, i) {
            let i = choose|i: int|
                #[trigger] cut_at(caption, text, i) && r == quoted(
                    caption,
                    i,
                    caption.len() as int,
                );
            lemma_quoted_has_a_quotation(caption, i, caption.len() as int);
        }
    }
}

/// Quoting changes nothing but to put the two tags round a part of the caption: the
/// post's text, or, where the caption was cut within it, what is left of the text up to
/// the end. The result says where the part begins and ends; where nothing is quoted, the
/// caption stays as it is.
pub proof fn law_quoting_only_adds_the_tags(
    caption: Seq<char>,
    text: Seq<char>,
    threshold: int,
    r: Seq<char>,
) -> (part: (int, int))
    requires
        quotes(caption, text, threshold, r),
        r != caption,
    ensures
        0 <= part.0 <= part.1 <= caption.len(),
        r == caption.subrange(0, part.0) + "<blockquote expandable>"@ + caption.subrange(
            part.0,
            part.1,
        ) + "</blockquote>"@ + caption.subrange(part.1, caption.len() as int),
        caption.subrange(part.0, part.1) == text || (part.1 == caption.len()
            && caption[caption.len() - 1] == '…' && caption.subrange(
            part.0,
            caption.len() - 1,
        ).is_prefix_of(text)),
        caption.subrange(part.0, part.1) == text ==> forall|j: int|
            0 <= j < part.0 ==> !#[trigger] crate::text::occurs_at(caption, text, j),
        threshold > 0,
        text.len() >= threshold,
{
    if crate::text::has(caption, text) {
        let i = choose|i: int|
            #[trigger] crate::text::first_at(caption, text, i) && r == quoted(
                caption,
                i,
                i + text.len(),
            );
        let to = i + text.len();
        assert(caption.take(i) =~= caption.subrange(0, i));
        assert(caption.skip(to) =~= caption.subrange(to, caption.len() as int));
        (i, to)
    } else {
        let i = choose|i: int|
            #[trigger] cut_at(caption, text, i) && r == quoted(caption, i, caption.len() as int);
        let n = caption.len() as int;
        assert(caption.take(i) =~= caption.subrange(0, i));
        assert(caption.skip(n) =~= caption.subrange(n, n));
        let piece = caption.subrange(i, n - 1);
        assert(piece =~= text.subrange(0, piece.len() as int));
        assert forall|j: int| 0 <= j < i implies !#[trigger] crate::text::occurs_at(
            caption,
            text,
            j,
        ) by {}
        (i, n)
    }
}

/// The text of a long post that stands in the caption, whole or cut at the end of it, is
/// always quoted, unless the caption has a quotation already; that of a short post never
/// is, and neither is any where quoting is off.
pub proof fn law_long_posts_are_quoted(
    caption: Seq<char>,
    text: Seq<char>,
    threshold: int,
    r: Seq<char>,
)
    requires
        quotes(caption, text, threshold, r),
    ensures
        threshold > 0 && text.len() >= threshold && !crate::text::has(caption, "<blockquote"@)
            && crate::text::has(caption, text) ==> r.len() == caption.len()
            + "<blockquote expandable>"@.len() + "</blockquote>"@.len(),
        threshold > 0 && text.len() >= threshold && !crate::text::has(caption, "<blockquote"@)
            && !crate::text::has(caption, text) && (exists|i: int|
            0 <= i < caption.len() - 1 && caption[caption.len() - 1] == '…' && #[trigger] cut_from(
                caption,
                text,
                i,
            )) ==> r.len() == caption.len() + "<blockquote expandable>"@.len()
            + "</blockquote>"@.len(),
        threshold == 0 || text.len() < threshold ==> r == caption,
        forall|i: int|
            0 <= i < caption.len() - 1 && caption[caption.len() - 1] == '…' ==> (
            #[trigger] cut_from(caption, text, i) <==> caption.subrange(
                i,
                caption.len() - 1,
            ).is_prefix_of(text)),
{
    assert forall|i: int| 0 <= i < caption.len() - 1 && caption[caption.len() - 1] == '…' implies (
    #[trigger] cut_from(caption, text, i) <==> caption.subrange(
        i,
        caption.len() - 1,
    ).is_prefix_of(text)) by {
        let piece = caption.subrange(i, caption.len() - 1);
        if piece.is_prefix_of(text) {
            assert(text.subrange(0, piece.len() as int) =~= piece);
        }
    }
    if is_long(text, threshold) && !crate::text::has(caption, "<blockquote"@) && !crate::text::has(
        caption,
        text,
    ) && exists|i: int| cut_from(caption, text, i) {
        let i = choose|i: int|
            #[trigger] cut_at(caption, text, i) && r == quoted(caption, i, caption.len() as int);
        assert(r.len() == quoted(caption, i, caption.len() as int).len());
    }
    if is_long(text, threshold) && !crate::text::has(caption, "<blockquote"@) && crate::text::has(
        caption,
        text,
    ) {
        let i = choose|i: int|
            #[trigger] crate::text::first_at(caption, text, i) && r == quoted(
                caption,
                i,
                i + text.len(),
            );
        assert(r.len() == quoted(caption, i, i + text.len()).len());
    }
}

} // verus!
