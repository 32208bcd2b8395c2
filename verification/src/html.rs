//! Escaping of text that goes into HTML-formatted messages.
use vstd::prelude::*;

verus! {

/// What one character of a text becomes.
pub open spec fn escaped_char(c: char) -> Seq<char> {
    if c == '&' {
        "&amp;"@
    } else if c == '<' {
        "&lt;"@
    } else if c == '>' {
        "&gt;"@
    } else {
        seq![c]
    }
}

/// What one character of a double-quoted attribute becomes.
pub open spec fn escaped_attribute_char(c: char) -> Seq<char> {
    if c == '"' {
        "&quot;"@
    } else {
        escaped_char(c)
    }
}

/// A text with every `&`, `<` and `>` replaced by its entity.
pub open spec fn escaped_text(s: Seq<char>) -> Seq<char>
    decreases s.len(),
{
    if s.len() == 0 {
        Seq::empty()
    } else {
        escaped_text(s.drop_last()) + escaped_char(s.last())
    }
}

/// A text with every `&`, `<`, `>` and `"` replaced by its entity.
pub open spec fn escaped_attribute(s: Seq<char>) -> Seq<char>
    decreases s.len(),
{
    if s.len() == 0 {
        Seq::empty()
    } else {
        escaped_attribute(s.drop_last()) + escaped_attribute_char(s.last())
    }
}

/// Escapes a text with `html_escape::encode_text`, which replaces every `&`,
/// `<` and `>` by its entity and keeps everything else.
#[verifier::external_body]
pub(crate) fn escape_text(s: &str) -> (r: String)
    ensures
        r@ == escaped_text(s@),
{
    html_escape::encode_text(s).into_owned()
}

/// Escapes an attribute value with
/// `html_escape::encode_double_quoted_attribute`, which replaces every `&`,
/// `<`, `>` and `"` by its entity and keeps everything else.
#[verifier::external_body]
pub(crate) fn escape_attribute(s: &str) -> (r: String)
    ensures
        r@ == escaped_attribute(s@),
{
    html_escape::encode_double_quoted_attribute(s).into_owned()
}

/// The entities, spelled out.
proof fn lemma_entities()
    ensures
        "&amp;"@ == seq!['&', 'a', 'm', 'p', ';'],
        "&lt;"@ == seq!['&', 'l', 't', ';'],
        "&gt;"@ == seq!['&', 'g', 't', ';'],
        "&quot;"@ == seq!['&', 'q', 'u', 'o', 't', ';'],
{
    reveal_strlit("&amp;");
    reveal_strlit("&lt;");
    reveal_strlit("&gt;");
    reveal_strlit("&quot;");
    assert("&amp;"@ =~= seq!['&', 'a', 'm', 'p', ';']);
    assert("&lt;"@ =~= seq!['&', 'l', 't', ';']);
    assert("&gt;"@ =~= seq!['&', 'g', 't', ';']);
    assert("&quot;"@ =~= seq!['&', 'q', 'u', 'o', 't', ';']);
}

/// Escaped text opens and closes no tag, whatever the text was.
pub proof fn law_escaped_text_has_no_markup(s: Seq<char>)
    ensures
        forall|i: int|
            0 <= i < escaped_text(s).len() ==> escaped_text(s)[i] != '<' && escaped_text(s)[i]
                != '>',
    decreases s.len(),
{
    if s.len() > 0 {
        law_escaped_text_has_no_markup(s.drop_last());
        lemma_entities();
        let tail = escaped_char(s.last());
        let head = escaped_text(s.drop_last());
        assert(forall|j: int| 0 <= j < tail.len() ==> tail[j] != '<' && tail[j] != '>');
        assert forall|i: int| 0 <= i < escaped_text(s).len() implies escaped_text(s)[i] != '<'
            && escaped_text(s)[i] != '>' by {
            assert(escaped_text(s) == head + tail);
            if i < head.len() {
                assert((head + tail)[i] == head[i]);
            } else {
                assert((head + tail)[i] == tail[i - head.len()]);
            }
        }
    }
}

/// An escaped attribute value ends neither its quotes nor its tag.
pub proof fn law_escaped_attribute_stays_quoted(s: Seq<char>)
    ensures
        forall|i: int|
            0 <= i < escaped_attribute(s).len() ==> escaped_attribute(s)[i] != '"'
                && escaped_attribute(s)[i] != '<' && escaped_attribute(s)[i] != '>',
    decreases s.len(),
{
    if s.len() > 0 {
        law_escaped_attribute_stays_quoted(s.drop_last());
        lemma_entities();
        let tail = escaped_attribute_char(s.last());
        let head = escaped_attribute(s.drop_last());
        assert(forall|j: int|
            0 <= j < tail.len() ==> tail[j] != '"' && tail[j] != '<' && tail[j] != '>');
        assert forall|i: int| 0 <= i < escaped_attribute(s).len() implies escaped_attribute(
            s,
        )[i] != '"' && escaped_attribute(s)[i] != '<' && escaped_attribute(s)[i] != '>' by {
            assert(escaped_attribute(s) == head + tail);
            if i < head.len() {
                assert((head + tail)[i] == head[i]);
            } else {
                assert((head + tail)[i] == tail[i - head.len()]);
            }
        }
    }
}

} // verus!
