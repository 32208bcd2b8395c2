//! Plain text: comparison, search, decimal numbers and length caps.
use vstd::prelude::*;

verus! {

/// Appends one character, as `String::push` of the standard library does.
pub assume_specification[ String::push ](s: &mut String, c: char)
    ensures
        final(s)@ == old(s)@.push(c),
;

/// Whether two texts hold the same characters.
pub fn same(a: &str, b: &str) -> (r: bool)
    ensures
        r == (a@ == b@),
{
    a.to_owned() == b.to_owned()
}

/// The characters of a text, one by one.
pub fn chars_of(s: &str) -> (r: Vec<char>)
    ensures
        r@ == s@,
{
    let mut out: Vec<char> = Vec::new();
    for c in it: s.chars()
        invariant
            out@ == it.seq().take(it.index() as int),
            it.seq() == s@,
    {
        proof {
            assert(it.seq().take(it.index() as int).push(c) =~= it.seq().take(it.index() + 1));
        }
        out.push(c);
    }
    proof {
        assert(s@.take(s@.len() as int) =~= s@);
    }
    out
}

/// The text made of the characters from `from` up to but not including `to`.
pub fn slice_chars(v: &Vec<char>, from: usize, to: usize) -> (r: String)
    requires
        from <= to <= v@.len(),
    ensures
        r@ == v@.subrange(from as int, to as int),
{
    let mut out = String::new();
    let mut i: usize = from;
    proof {
        assert(v@.subrange(from as int, from as int) =~= Seq::<char>::empty());
    }
    while i < to
        invariant
            from <= i <= to <= v@.len(),
            out@ == v@.subrange(from as int, i as int),
        decreases to - i,
    {
        out.push(v[i]);
        i = i + 1;
        proof {
            assert(v@.subrange(from as int, i as int) =~= v@.subrange(
                from as int,
                i - 1,
            ).push(v@[i - 1]));
        }
    }
    out
}

/// The decimal digits of a number, most significant first.
pub open spec fn digits(n: nat) -> Seq<char>
    decreases n,
{
    if n < 10 {
        seq![digit_char(n)]
    } else {
        digits(n / 10).push(digit_char(n % 10))
    }
}

/// The character of one decimal digit.
pub open spec fn digit_char(d: nat) -> char {
    (48 + d) as char
}

/// A signed number in decimal, with a leading `-` where it is negative.
pub open spec fn signed_digits(n: int) -> Seq<char> {
    if n < 0 {
        seq!['-'] + digits((-n) as nat)
    } else {
        digits(n as nat)
    }
}

fn digit(d: u64) -> (c: char)
    requires
        d < 10,
    ensures
        c == digit_char(d as nat),
{
    (48u8 + d as u8) as char
}

/// Writes a number in decimal.
pub fn decimal(n: u64) -> (r: String)
    ensures
        r@ == digits(n as nat),
    decreases n,
{
    if n < 10 {
        let mut out = String::new();
        out.push(digit(n));
        proof {
            assert(out@ =~= seq![digit_char(n as nat)]);
        }
        out
    } else {
        let mut out = decimal(n / 10);
        out.push(digit(n % 10));
        out
    }
}

/// Writes a signed number in decimal.
pub fn signed_decimal(n: i64) -> (r: String)
    ensures
        r@ == signed_digits(n as int),
{
    if n < 0 {
        let mut out = String::new();
        out.push('-');
        let magnitude: u64 = if n == i64::MIN { 0x8000_0000_0000_0000 } else { (-n) as u64 };
        let rest = decimal(magnitude);
        out.append(rest.as_str());
        proof {
            assert(out@ =~= seq!['-'] + digits((-n) as nat));
        }
        out
    } else {
        decimal(n as u64)
    }
}

// ---- whitespace and words ----

/// The characters with the Unicode property `White_Space`.
pub open spec fn is_blank(c: char) -> bool {
    let n = c as u32;
    ||| 9 <= n <= 13
    ||| n == 0x20
    ||| n == 0x85
    ||| n == 0xa0
    ||| n == 0x1680
    ||| 0x2000 <= n <= 0x200a
    ||| n == 0x2028
    ||| n == 0x2029
    ||| n == 0x202f
    ||| n == 0x205f
    ||| n == 0x3000
}

pub fn blank(c: char) -> (r: bool)
    ensures
        r == is_blank(c),
{
    let n: u32 = c as u32;
    (9 <= n && n <= 13) || n == 0x20 || n == 0x85 || n == 0xa0 || n == 0x1680 || (0x2000 <= n && n
        <= 0x200a) || n == 0x2028 || n == 0x2029 || n == 0x202f || n == 0x205f || n == 0x3000
}

/// A text without its leading whitespace.
pub open spec fn trimmed_start(s: Seq<char>) -> Seq<char>
    decreases s.len(),
{
    if s.len() > 0 && is_blank(s[0]) {
        trimmed_start(s.drop_first())
    } else {
        s
    }
}

/// A text without its trailing whitespace.
pub open spec fn trimmed_end(s: Seq<char>) -> Seq<char>
    decreases s.len(),
{
    if s.len() > 0 && is_blank(s.last()) {
        trimmed_end(s.drop_last())
    } else {
        s
    }
}

/// A text without the whitespace around it.
pub open spec fn trimmed(s: Seq<char>) -> Seq<char> {
    trimmed_end(trimmed_start(s))
}

pub fn trim(s: &str) -> (r: String)
    ensures
        r@ == trimmed(s@),
{
    let v = chars_of(s);
    let mut from: usize = 0;
    assert(v@.subrange(0, v@.len() as int) =~= v@);
    while from < v.len() && blank(v[from])
        invariant
            from <= v@.len(),
            trimmed_start(v@.subrange(from as int, v@.len() as int)) == trimmed_start(v@),
        decreases v@.len() - from,
    {
        proof {
            let rest = v@.subrange(from as int, v@.len() as int);
            assert(rest[0] == v@[from as int]);
            assert(rest.drop_first() =~= v@.subrange(from + 1, v@.len() as int));
        }
        from = from + 1;
    }
    let ghost start = v@.subrange(from as int, v@.len() as int);
    proof {
        if start.len() > 0 {
            assert(start[0] == v@[from as int]);
        }
        assert(trimmed_start(v@) == start);
    }
    let mut to: usize = v.len();
    while to > from && blank(v[to - 1])
        invariant
            from <= to <= v@.len(),
            trimmed_end(v@.subrange(from as int, to as int)) == trimmed_end(start),
        decreases to,
    {
        proof {
            let rest = v@.subrange(from as int, to as int);
            assert(rest.last() == v@[to - 1]);
            assert(rest.drop_last() =~= v@.subrange(from as int, to - 1));
        }
        to = to - 1;
    }
    proof {
        let rest = v@.subrange(from as int, to as int);
        if rest.len() > 0 {
            assert(rest.last() == v@[to - 1]);
        }
    }
    slice_chars(&v, from, to)
}

/// The pieces of a text between the occurrences of a character.
pub open spec fn pieces(s: Seq<char>, c: char) -> Seq<Seq<char>>
    decreases s.len(),
{
    if s.len() == 0 {
        seq![Seq::empty()]
    } else {
        let front = pieces(s.drop_last(), c);
        if s.last() == c {
            front.push(Seq::empty())
        } else {
            front.drop_last().push(front.last().push(s.last()))
        }
    }
}

/// Texts, seen as characters.
pub open spec fn texts(v: Seq<String>) -> Seq<Seq<char>> {
    v.map_values(|s: String| s@)
}

pub proof fn lemma_pieces_nonempty(s: Seq<char>, c: char)
    ensures
        pieces(s, c).len() >= 1,
    decreases s.len(),
{
    if s.len() > 0 {
        lemma_pieces_nonempty(s.drop_last(), c);
    }
}

/// Splits a text at every occurrence of a character.
pub fn split_on(s: &str, c: char) -> (r: Vec<String>)
    ensures
        texts(r@) == pieces(s@, c),
        r@.len() >= 1,
{
    let v = chars_of(s);
    let mut out: Vec<String> = Vec::new();
    let mut piece = String::new();
    let mut i: usize = 0;
    proof {
        assert(v@.take(0) =~= Seq::<char>::empty());
        assert(texts(out@).push(piece@) =~= pieces(v@.take(0), c));
    }
    while i < v.len()
        invariant
            v@ == s@,
            i <= v@.len(),
            texts(out@).push(piece@) == pieces(v@.take(i as int), c),
        decreases v@.len() - i,
    {
        proof {
            assert(v@.take(i + 1).drop_last() =~= v@.take(i as int));
            assert(v@.take(i + 1).last() == v@[i as int]);
            assert(texts(out@).push(piece@).drop_last() =~= texts(out@));
            assert(texts(out@).push(piece@).last() == piece@);
        }
        let ghost had = out@;
        let ghost was = piece@;
        if v[i] == c {
            out.push(piece);
            piece = String::new();
            proof {
                assert(texts(out@) =~= texts(had).push(was));
                assert(piece@ =~= Seq::<char>::empty());
            }
        } else {
            piece.push(v[i]);
        }
        i = i + 1;
    }
    proof {
        assert(v@.take(i as int) =~= v@);
    }
    let ghost had = out@;
    let ghost was = piece@;
    out.push(piece);
    proof {
        assert(texts(out@) =~= texts(had).push(was));
    }
    out
}

// ---- reading numbers ----

pub open spec fn is_digit(c: char) -> bool {
    48 <= c as u32 <= 57
}

/// The number that decimal digits stand for.
pub open spec fn digits_value(s: Seq<char>) -> nat
    decreases s.len(),
{
    if s.len() == 0 {
        0
    } else {
        digits_value(s.drop_last()) * 10 + (s.last() as u32 - 48) as nat
    }
}

pub open spec fn all_digits(s: Seq<char>) -> bool {
    s.len() > 0 && forall|i: int| 0 <= i < s.len() ==> is_digit(#[trigger] s[i])
}

/// A text as an unsigned number up to `max`: decimal digits, with a plus sign or
/// not.
pub open spec fn unsigned_value(s: Seq<char>, max: nat) -> Option<nat> {
    let body = if s.len() > 0 && s[0] == '+' {
        s.drop_first()
    } else {
        s
    };
    if all_digits(body) && digits_value(body) <= max {
        Some(digits_value(body))
    } else {
        None
    }
}

/// A text as a signed 64-bit number: decimal digits, with a sign or not.
pub open spec fn signed_value(s: Seq<char>) -> Option<int> {
    if s.len() > 0 && s[0] == '-' {
        let body = s.drop_first();
        if all_digits(body) && digits_value(body) <= 0x8000_0000_0000_0000 {
            Some(-(digits_value(body) as int))
        } else {
            None
        }
    } else {
        match unsigned_value(s, 0x7fff_ffff_ffff_ffff) {
            Some(n) => Some(n as int),
            None => None,
        }
    }
}

proof fn lemma_digits_value_grows(s: Seq<char>, i: int)
    requires
        0 <= i <= s.len(),
        forall|j: int| 0 <= j < s.len() ==> is_digit(#[trigger] s[j]),
    ensures
        digits_value(s.take(i)) <= digits_value(s),
    decreases s.len() - i,
{
    if i < s.len() {
        lemma_digits_value_grows(s, i + 1);
        assert(s.take(i + 1).drop_last() =~= s.take(i));
        assert(s.take(i + 1).last() == s[i]);
    } else {
        assert(s.take(i) =~= s);
    }
}

/// Reads the characters from `from` on as a number up to `max`.
fn read_digits(v: &Vec<char>, from: usize, max: u64) -> (r: Option<u64>)
    requires
        from <= v@.len(),
    ensures
        ({
            let body = v@.skip(from as int);
            match r {
                Some(n) => all_digits(body) && digits_value(body) == n && n <= max,
                None => !(all_digits(body) && digits_value(body) <= max),
            }
        }),
{
    let ghost body = v@.skip(from as int);
    if from == v.len() {
        return None;
    }
    let mut n: u64 = 0;
    let mut i: usize = from;
    proof {
        assert(body.take(0) =~= Seq::<char>::empty());
    }
    while i < v.len()
        invariant
            from <= i <= v@.len(),
            body == v@.skip(from as int),
            forall|j: int| 0 <= j < i - from ==> is_digit(#[trigger] body[j]),
            n == digits_value(body.take(i - from)),
            n <= max,
        decreases v@.len() - i,
    {
        let c: u32 = v[i] as u32;
        assert(body[i - from] == v@[i as int]);
        if c < 48 || c > 57 {
            assert(!is_digit(body[i - from]));
            return None;
        }
        let d: u64 = (c - 48) as u64;
        proof {
            assert(body.take(i - from + 1).drop_last() =~= body.take(i - from));
            assert(body.take(i - from + 1).last() == body[i - from]);
        }
        if n > max / 10 || max - n * 10 < d {
            proof {
                assert(digits_value(body.take(i - from + 1)) > max);
                if all_digits(body) {
                    lemma_digits_value_grows(body, i - from + 1);
                }
            }
            return None;
        }
        n = n * 10 + d;
        i = i + 1;
    }
    proof {
        assert(body.take(i - from) =~= body);
    }
    Some(n)
}

/// Reads an unsigned number up to `max`.
pub fn parse_unsigned(s: &str, max: u64) -> (r: Option<u64>)
    ensures
        match r {
            Some(n) => unsigned_value(s@, max as nat) == Some(n as nat),
            None => unsigned_value(s@, max as nat) is None,
        },
{
    let v = chars_of(s);
    let from: usize = if v.len() > 0 && v[0] == '+' {
        1
    } else {
        0
    };
    proof {
        if from == 1 {
            assert(v@.skip(1) =~= s@.drop_first());
        } else {
            assert(v@.skip(0) =~= s@);
        }
    }
    read_digits(&v, from, max)
}

/// Reads a signed 64-bit number.
pub fn parse_signed(s: &str) -> (r: Option<i64>)
    ensures
        match r {
            Some(n) => signed_value(s@) == Some(n as int),
            None => signed_value(s@) is None,
        },
{
    let v = chars_of(s);
    if v.len() > 0 && v[0] == '-' {
        proof {
            assert(v@.skip(1) =~= s@.drop_first());
        }
        match read_digits(&v, 1, 0x8000_0000_0000_0000) {
            Some(n) => if n == 0x8000_0000_0000_0000 {
                Some(i64::MIN)
            } else {
                Some(-(n as i64))
            },
            None => None,
        }
    } else {
        match parse_unsigned(s, 0x7fff_ffff_ffff_ffff) {
            Some(n) => Some(n as i64),
            None => None,
        }
    }
}

/// The lower case of a text, as the standard library has it.
pub uninterp spec fn lowercase_of(s: Seq<char>) -> Seq<char>;

/// Lower-cases with `str::to_lowercase`. The result is named: it is a function of
/// the text alone.
#[verifier::external_body]
pub(crate) fn lowercase(s: &str) -> (r: String)
    ensures
        r@ == lowercase_of(s@),
{
    s.to_lowercase()
}

// ---- searching ----

/// Whether `p` stands in `s` at position `i`.
pub open spec fn occurs_at(s: Seq<char>, p: Seq<char>, i: int) -> bool {
    0 <= i && i + p.len() <= s.len() && s.subrange(i, i + p.len()) == p
}

pub open spec fn begins_with(s: Seq<char>, p: Seq<char>) -> bool {
    occurs_at(s, p, 0)
}

/// Whether `p` stands anywhere in `s`.
pub open spec fn has(s: Seq<char>, p: Seq<char>) -> bool {
    exists|i: int| occurs_at(s, p, i)
}

/// Whether `p` stands in `s` at position `i`.
fn matches_at(s: &Vec<char>, p: &Vec<char>, i: usize) -> (r: bool)
    requires
        i <= s@.len(),
    ensures
        r == occurs_at(s@, p@, i as int),
{
    let n: usize = s.len();
    if p.len() > n - i {
        return false;
    }
    let mut j: usize = 0;
    while j < p.len()
        invariant
            j <= p@.len(),
            n == s@.len(),
            i + p@.len() <= n,
            forall|k: int| 0 <= k < j ==> s@[i + k] == p@[k],
        decreases p@.len() - j,
    {
        if s[i + j] != p[j] {
            proof {
                assert(s@.subrange(i as int, i + p@.len())[j as int] == s@[i + j]);
            }
            return false;
        }
        j = j + 1;
    }
    assert(s@.subrange(i as int, i + p@.len()) =~= p@);
    true
}

pub fn starts_with(s: &str, p: &str) -> (r: bool)
    ensures
        r == begins_with(s@, p@),
{
    let v = chars_of(s);
    let q = chars_of(p);
    matches_at(&v, &q, 0)
}

/// What follows a prefix, where the text begins with it.
pub fn strip_prefix(s: &str, p: &str) -> (r: Option<String>)
    ensures
        match r {
            Some(rest) => begins_with(s@, p@) && rest@ == s@.skip(p@.len() as int),
            None => !begins_with(s@, p@),
        },
{
    let v = chars_of(s);
    let q = chars_of(p);
    if matches_at(&v, &q, 0) {
        let rest = slice_chars(&v, q.len(), v.len());
        assert(rest@ =~= s@.skip(p@.len() as int));
        Some(rest)
    } else {
        None
    }
}

pub fn contains(s: &str, p: &str) -> (r: bool)
    ensures
        r == has(s@, p@),
{
    let v = chars_of(s);
    let q = chars_of(p);
    let mut i: usize = 0;
    loop
        invariant
            v@ == s@,
            q@ == p@,
            i <= v@.len(),
            forall|k: int| 0 <= k < i ==> !occurs_at(s@, p@, k),
        decreases v@.len() - i,
    {
        if matches_at(&v, &q, i) {
            assert(occurs_at(s@, p@, i as int));
            return true;
        }
        if i == v.len() {
            return false;
        }
        i = i + 1;
    }
}

/// A text with every occurrence of a pattern replaced, from the front and
/// without overlaps.
pub open spec fn replaced(s: Seq<char>, p: Seq<char>, with: Seq<char>) -> Seq<char>
    decreases s.len(),
{
    if p.len() == 0 || s.len() < p.len() {
        s
    } else if begins_with(s, p) {
        with + replaced(s.skip(p.len() as int), p, with)
    } else {
        seq![s[0]] + replaced(s.skip(1), p, with)
    }
}

/// Replaces every occurrence of a pattern.
pub fn replace_all(s: &str, p: &str, with: &str) -> (r: String)
    requires
        p@.len() > 0,
    ensures
        r@ == replaced(s@, p@, with@),
{
    let v = chars_of(s);
    let q = chars_of(p);
    let mut out = String::new();
    let mut i: usize = 0;
    proof {
        assert(v@.skip(0) =~= v@);
        assert(out@ + replaced(v@.skip(0), p@, with@) =~= replaced(s@, p@, with@));
    }
    while i < v.len()
        invariant
            v@ == s@,
            q@ == p@,
            p@.len() > 0,
            i <= v@.len(),
            out@ + replaced(v@.skip(i as int), p@, with@) == replaced(s@, p@, with@),
        decreases v@.len() - i,
    {
        let ghost rest = v@.skip(i as int);
        let ghost was = out@;
        proof {
            assert(occurs_at(rest, p@, 0) == occurs_at(v@, p@, i as int)) by {
                if i + p@.len() <= v@.len() {
                    assert(rest.subrange(0, p@.len() as int) =~= v@.subrange(
                        i as int,
                        i + p@.len(),
                    ));
                }
            }
        }
        if matches_at(&v, &q, i) {
            out.append(with);
            proof {
                assert(rest.skip(p@.len() as int) =~= v@.skip(i + p@.len()));
                let tail = replaced(v@.skip(i + p@.len()), p@, with@);
                assert(was + (with@ + tail) =~= (was + with@) + tail);
            }
            i = i + q.len();
        } else {
            out.push(v[i]);
            proof {
                if rest.len() >= p@.len() {
                    assert(rest.skip(1) =~= v@.skip(i + 1));
                    let tail = replaced(v@.skip(i + 1), p@, with@);
                    assert(was + (seq![rest[0]] + tail) =~= was.push(v@[i as int]) + tail);
                } else {
                    assert(v@.skip(i + 1).len() < p@.len());
                    assert(was + rest =~= was.push(v@[i as int]) + v@.skip(i + 1));
                }
            }
            i = i + 1;
        }
    }
    proof {
        assert(v@.skip(i as int) =~= Seq::<char>::empty());
        assert(out@ + Seq::<char>::empty() =~= out@);
    }
    out
}

/// Texts put together with a separator between them.
pub open spec fn joined(parts: Seq<Seq<char>>, sep: Seq<char>) -> Seq<char>
    decreases parts.len(),
{
    if parts.len() == 0 {
        Seq::empty()
    } else if parts.len() == 1 {
        parts[0]
    } else {
        joined(parts.drop_last(), sep) + sep + parts.last()
    }
}

/// Puts texts together with a separator between them.
pub fn join(parts: &Vec<String>, sep: &str) -> (r: String)
    ensures
        r@ == joined(texts(parts@), sep@),
{
    let ghost all = texts(parts@);
    if parts.len() == 0 {
        return String::new();
    }
    let mut out = parts[0].clone();
    let mut i: usize = 1;
    proof {
        assert(all.take(1) =~= seq![all[0]]);
    }
    while i < parts.len()
        invariant
            1 <= i <= parts@.len(),
            all == texts(parts@),
            out@ == joined(all.take(i as int), sep@),
        decreases parts@.len() - i,
    {
        proof {
            assert(all.take(i + 1).drop_last() =~= all.take(i as int));
            assert(all.take(i + 1).last() == parts@[i as int]@);
        }
        out.append(sep);
        out.append(parts[i].as_str());
        i = i + 1;
    }
    assert(all.take(i as int) =~= all);
    out
}

/// Where `p` first stands in `s`.
pub open spec fn first_at(s: Seq<char>, p: Seq<char>, i: int) -> bool {
    occurs_at(s, p, i) && forall|j: int| 0 <= j < i ==> !#[trigger] occurs_at(s, p, j)
}

pub fn find_chars(s: &Vec<char>, p: &Vec<char>) -> (r: Option<usize>)
    ensures
        match r {
            Some(i) => first_at(s@, p@, i as int),
            None => !(has(s@, p@)),
        },
{
    let mut i: usize = 0;
    loop
        invariant
            i <= s@.len(),
            forall|k: int| 0 <= k < i ==> !#[trigger] occurs_at(s@, p@, k),
        decreases s@.len() - i,
    {
        if matches_at(s, p, i) {
            return Some(i);
        }
        if i == s.len() {
            assert forall|k: int| !occurs_at(s@, p@, k) by {}
            return None;
        }
        i = i + 1;
    }
}

// ---- lengths ----

const LAST_OF_ONE_BYTE: char = '\u{7f}';

const LAST_OF_TWO_BYTES: char = '\u{7ff}';

const LAST_OF_THREE_BYTES: char = '\u{ffff}';

/// The bytes that a character takes in UTF-8.
pub open spec fn char_bytes(c: char) -> int {
    let n = c as int;
    if n < 0x80 {
        1
    } else if n < 0x800 {
        2
    } else if n < 0x10000 {
        3
    } else {
        4
    }
}

/// The bytes that a text takes in UTF-8.
pub open spec fn text_bytes(s: Seq<char>) -> int
    decreases s.len(),
{
    if s.len() == 0 {
        0
    } else {
        text_bytes(s.drop_last()) + char_bytes(s.last())
    }
}

pub proof fn lemma_text_bytes(s: Seq<char>)
    ensures
        s.len() <= text_bytes(s) <= 4 * s.len(),
    decreases s.len(),
{
    if s.len() > 0 {
        lemma_text_bytes(s.drop_last());
    }
}

pub proof fn lemma_bytes_add(a: Seq<char>, b: Seq<char>)
    ensures
        text_bytes(a + b) == text_bytes(a) + text_bytes(b),
    decreases b.len(),
{
    if b.len() > 0 {
        assert((a + b).drop_last() =~= a + b.drop_last());
        lemma_bytes_add(a, b.drop_last());
    } else {
        assert(a + b =~= a);
    }
}

pub proof fn lemma_ascii_bytes(s: Seq<char>)
    requires
        forall|i: int| 0 <= i < s.len() ==> (#[trigger] s[i]) as int <= 0x7f,
    ensures
        text_bytes(s) == s.len(),
    decreases s.len(),
{
    if s.len() > 0 {
        assert(s[s.len() - 1] as int <= 0x7f);
        lemma_ascii_bytes(s.drop_last());
    }
}

fn width(c: char) -> (r: usize)
    ensures
        r == char_bytes(c),
{
    if c <= LAST_OF_ONE_BYTE {
        1
    } else if c <= LAST_OF_TWO_BYTES {
        2
    } else if c <= LAST_OF_THREE_BYTES {
        3
    } else {
        4
    }
}

/// As many of the first characters as fit into a number of bytes.
pub open spec fn fitting(s: Seq<char>, bytes: int, n: int) -> bool {
    &&& 0 <= n <= s.len()
    &&& text_bytes(s.take(n)) <= bytes
    &&& n < s.len() ==> text_bytes(s.take(n + 1)) > bytes
}

/// A text cut to a number of bytes: where it takes more, it loses characters at
/// the end and gets an ellipsis in the place of one byte. Where there is no room
/// for an ellipsis, nothing is left.
pub open spec fn capped(s: Seq<char>, max: int, r: Seq<char>) -> bool {
    if text_bytes(s) <= max {
        r == s
    } else if max <= 0 {
        r == Seq::<char>::empty()
    } else {
        exists|n: int| #[trigger] fitting(s, max - 1, n) && r == s.take(n).push('…')
    }
}

proof fn lemma_bytes_grow(s: Seq<char>, i: int)
    requires
        0 <= i <= s.len(),
    ensures
        text_bytes(s.take(i)) <= text_bytes(s),
    decreases s.len() - i,
{
    if i < s.len() {
        assert(s.take(i + 1).drop_last() =~= s.take(i));
        lemma_bytes_grow(s, i + 1);
    } else {
        assert(s.take(i) =~= s);
    }
}

/// How many of the first characters fit into a number of bytes.
fn fit(v: &Vec<char>, bytes: usize) -> (r: usize)
    ensures
        fitting(v@, bytes as int, r as int),
{
    let mut used: usize = 0;
    let mut i: usize = 0;
    assert(v@.take(0) =~= Seq::<char>::empty());
    while i < v.len()
        invariant
            i <= v@.len(),
            used == text_bytes(v@.take(i as int)),
            used <= bytes,
        decreases v@.len() - i,
    {
        let w: usize = width(v[i]);
        proof {
            assert(v@.take(i + 1).drop_last() =~= v@.take(i as int));
            assert(v@.take(i + 1).last() == v@[i as int]);
        }
        if w > bytes - used {
            return i;
        }
        used = used + w;
        i = i + 1;
    }
    i
}

/// Cuts a text to at most `max` characters; what stands before the ellipsis takes
/// fewer than `max` bytes.
pub fn cap_text(text: &str, max: usize) -> (r: String)
    ensures
        capped(text@, max as int, r@),
{
    let v = chars_of(text);
    let whole: usize = fit(&v, max);
    if whole == v.len() {
        assert(v@.take(whole as int) =~= v@);
        return text.to_owned();
    }
    proof {
        lemma_bytes_grow(v@, whole + 1);
    }
    if max == 0 {
        let out = String::new();
        assert(out@ =~= Seq::<char>::empty());
        return out;
    }
    let n: usize = fit(&v, max - 1);
    let mut out = slice_chars(&v, 0, n);
    assert(v@.subrange(0, n as int) =~= text@.take(n as int));
    out.push('…');
    assert(fitting(text@, max - 1, n as int));
    out
}

/// A capped text has at most `max` characters.
pub proof fn law_capped_text_is_short(s: Seq<char>, max: nat, r: Seq<char>)
    requires
        capped(s, max as int, r),
    ensures
        r.len() <= max,
{
    if text_bytes(s) <= max {
        lemma_text_bytes(s);
    } else if max > 0 {
        let n = choose|n: int| #[trigger] fitting(s, max - 1, n) && r == s.take(n).push('…');
        lemma_text_bytes(s.take(n));
    }
}

/// There is one way to cap a text.
pub proof fn law_capped_text_is_unique(s: Seq<char>, max: int, a: Seq<char>, b: Seq<char>)
    requires
        capped(s, max, a),
        capped(s, max, b),
    ensures
        a == b,
{
    if text_bytes(s) > max && max > 0 {
        let room = max - 1;
        let n = choose|n: int| #[trigger] fitting(s, room, n) && a == s.take(n).push('…');
        let m = choose|m: int| #[trigger] fitting(s, room, m) && b == s.take(m).push('…');
        if n < m {
            lemma_bytes_grow(s.take(m), n + 1);
            assert(s.take(m).take(n + 1) =~= s.take(n + 1));
        } else if m < n {
            lemma_bytes_grow(s.take(n), m + 1);
            assert(s.take(n).take(m + 1) =~= s.take(m + 1));
        }
    }
}

/// Whether a text takes at most `max` bytes.
pub fn fits_bytes(text: &str, max: usize) -> (r: bool)
    ensures
        r == (text_bytes(text@) <= max),
{
    let v = chars_of(text);
    let n: usize = fit(&v, max);
    proof {
        if n < v@.len() {
            lemma_bytes_grow(v@, n + 1);
        } else {
            assert(v@.take(n as int) =~= v@);
        }
    }
    n == v.len()
}

/// `y` for one thing, `ies` for any other number: one entry, two entries.
pub open spec fn plural_of(n: int) -> Seq<char> {
    if n == 1 {
        "y"@
    } else {
        "ies"@
    }
}

pub fn plural(n: usize) -> (r: String)
    ensures
        r@ == plural_of(n as int),
{
    if n == 1 {
        "y".to_owned()
    } else {
        "ies".to_owned()
    }
}

// ---- the first of something ----

/// How many characters stand before the first `c`; all of them where there is
/// none.
pub open spec fn until_char(s: Seq<char>, c: char) -> int
    decreases s.len(),
{
    if s.len() == 0 || s[0] == c {
        0
    } else {
        1 + until_char(s.skip(1), c)
    }
}

pub proof fn lemma_until_char(s: Seq<char>, c: char)
    ensures
        0 <= until_char(s, c) <= s.len(),
        until_char(s, c) < s.len() ==> s[until_char(s, c)] == c,
        forall|j: int| 0 <= j < until_char(s, c) ==> s[j] != c,
    decreases s.len(),
{
    if s.len() > 0 && s[0] != c {
        lemma_until_char(s.skip(1), c);
        assert forall|j: int| 0 <= j < until_char(s, c) implies s[j] != c by {
            if j > 0 {
                assert(s.skip(1)[j - 1] == s[j]);
            }
        }
    }
}

/// Where a place is the first `c`, it is the one that counts.
proof fn lemma_first_char(s: Seq<char>, c: char, i: int)
    requires
        0 <= i <= s.len(),
        i < s.len() ==> s[i] == c,
        forall|j: int| 0 <= j < i ==> s[j] != c,
    ensures
        until_char(s, c) == i,
{
    lemma_until_char(s, c);
}

/// Finds the first `c` from a place on.
pub fn find_char(v: &Vec<char>, from: usize, c: char) -> (r: usize)
    requires
        from <= v@.len(),
    ensures
        from <= r <= v@.len(),
        r - from == until_char(v@.skip(from as int), c),
{
    let mut i: usize = from;
    let ghost rest = v@.skip(from as int);
    while i < v.len() && v[i] != c
        invariant
            from <= i <= v@.len(),
            rest == v@.skip(from as int),
            forall|j: int| 0 <= j < i - from ==> rest[j] != c,
        decreases v@.len() - i,
    {
        assert(rest[i - from] == v@[i as int]);
        i = i + 1;
    }
    proof {
        if i < v@.len() {
            assert(rest[i - from] == v@[i as int]);
        }
        lemma_first_char(rest, c, i - from);
    }
    i
}

/// How many characters stand before the first that is blank; all of them where
/// none is.
pub open spec fn until_blank(s: Seq<char>) -> int
    decreases s.len(),
{
    if s.len() == 0 || is_blank(s[0]) {
        0
    } else {
        1 + until_blank(s.skip(1))
    }
}

proof fn lemma_first_blank(s: Seq<char>, i: int)
    requires
        0 <= i <= s.len(),
        i < s.len() ==> is_blank(s[i]),
        forall|j: int| 0 <= j < i ==> !is_blank(#[trigger] s[j]),
    ensures
        until_blank(s) == i,
    decreases s.len(),
{
    if i > 0 {
        assert(!is_blank(s[0]));
        assert forall|j: int| 0 <= j < i - 1 implies !is_blank(#[trigger] s.skip(1)[j]) by {
            assert(s.skip(1)[j] == s[j + 1]);
        }
        lemma_first_blank(s.skip(1), i - 1);
    }
}

/// Finds the first blank character.
pub fn find_blank(v: &Vec<char>) -> (r: usize)
    ensures
        r <= v@.len(),
        r == until_blank(v@),
{
    let mut i: usize = 0;
    while i < v.len()
        invariant
            i <= v@.len(),
            forall|j: int| 0 <= j < i ==> !is_blank(#[trigger] v@[j]),
        decreases v@.len() - i,
    {
        if blank(v[i]) {
            proof {
                lemma_first_blank(v@, i as int);
            }
            return i;
        }
        i = i + 1;
    }
    proof {
        lemma_first_blank(v@, i as int);
    }
    i
}

// ---- upper case ----

/// A character in upper case.
pub uninterp spec fn uppercase_of(c: char) -> Seq<char>;

/// The capital of a small ASCII letter; any other ASCII character is its own.
pub open spec fn ascii_capital(c: char) -> char {
    if 'a' as int <= c as int <= 'z' as int {
        (c as int - 32) as char
    } else {
        c
    }
}

/// `char::to_uppercase`. The result is named: it is a function of the character
/// alone. A small ASCII letter becomes its capital, and any other ASCII character
/// has no upper case and stays as it is.
#[verifier::external_body]
pub(crate) fn uppercase(c: char) -> (r: String)
    ensures
        r@ == uppercase_of(c),
        c as int <= 127 ==> r@ == seq![ascii_capital(c)],
{
    c.to_uppercase().to_string()
}

// ---- laws ----

/// A number is written with its digits from the most significant to the least: one more
/// digit at the end is ten times the number and the digit.
pub proof fn law_numbers_are_written_digit_by_digit(n: nat, d: nat)
    requires
        d < 10,
    ensures
        digits(d).len() == 1,
        digits(d)[0] as int == 48 + d,
        n > 0 ==> digits(10 * n + d).drop_last() == digits(n) && digits(10 * n + d).last() as int
            == 48 + d,
        signed_digits(n as int) == digits(n),
        n > 0 ==> signed_digits(-n) == seq!['-'] + digits(n),
{
    let m = 10 * n + d;
    assert(m / 10 == n && m % 10 == d);
    if n > 0 {
        assert(digits(m) == digits(n).push(digit_char(d)));
        assert(digits(m).drop_last() =~= digits(n));
    }
}

proof fn lemma_digits_read_back(n: nat)
    ensures
        all_digits(digits(n)),
        digits_value(digits(n)) == n,
    decreases n,
{
    let s = digits(n);
    if n >= 10 {
        lemma_digits_read_back(n / 10);
        assert(s.drop_last() =~= digits(n / 10));
        assert(s.last() == digit_char(n % 10));
        assert forall|i: int| 0 <= i < s.len() implies is_digit(#[trigger] s[i]) by {
            if i < s.len() - 1 {
                assert(s[i] == digits(n / 10)[i]);
            }
        }
    } else {
        assert(s.drop_last() =~= Seq::<char>::empty());
        assert(digits_value(s.drop_last()) == 0);
    }
}

/// A number that was written is read back as it was, with its sign.
pub proof fn law_written_numbers_are_read_back(n: nat, i: i64, max: nat)
    ensures
        n <= max ==> unsigned_value(digits(n), max) == Some(n),
        n > max ==> unsigned_value(digits(n), max) is None,
        signed_value(signed_digits(i as int)) == Some(i as int),
{
    lemma_digits_read_back(n);
    assert(is_digit(digits(n)[0]));
    if i < 0 {
        let m = (-(i as int)) as nat;
        let s = signed_digits(i as int);
        lemma_digits_read_back(m);
        assert(s.drop_first() =~= digits(m));
    } else {
        lemma_digits_read_back(i as nat);
        assert(is_digit(digits(i as nat)[0]));
    }
}

/// A text that is no number is not read as one.
pub proof fn law_only_numbers_are_read(s: Seq<char>, max: nat, i: int)
    requires
        1 <= i < s.len(),
        !(48 <= s[i] as u32 <= 57),
    ensures
        unsigned_value(s, max) is None,
        signed_value(s) is None,
{
    let body = s.drop_first();
    assert(body[i - 1] == s[i]);
    assert(!is_digit(body[i - 1]));
    assert(!is_digit(s[i]));
}

/// Trimming takes the blanks at both ends and nothing else. The result says what is
/// left: nothing blank at its ends, and only blanks round it.
pub proof fn law_trimming_takes_the_blanks_round(s: Seq<char>) -> (part: (int, int))
    ensures
        0 <= part.0 <= part.1 <= s.len(),
        trimmed(s) == s.subrange(part.0, part.1),
        forall|i: int| 0 <= i < part.0 ==> is_blank(#[trigger] s[i]),
        forall|i: int| part.1 <= i < s.len() ==> is_blank(#[trigger] s[i]),
        part.0 < part.1 ==> !is_blank(s[part.0]) && !is_blank(s[part.1 - 1]),
        is_blank(' '),
        is_blank('\n'),
        is_blank('\t'),
        forall|c: char| 33 <= c as int <= 126 ==> !(#[trigger] is_blank(c)),
{
    let from = lemma_trimmed_start(s);
    let rest = trimmed_start(s);
    let n = lemma_trimmed_end(rest);
    assert(rest =~= s.subrange(from, s.len() as int));
    assert(rest.subrange(0, n) =~= s.subrange(from, from + n));
    assert forall|i: int| from + n <= i < s.len() implies is_blank(#[trigger] s[i]) by {
        assert(rest[i - from] == s[i]);
    }
    if n > 0 {
        assert(rest[0] == s[from]);
        assert(rest[n - 1] == s[from + n - 1]);
    }
    (from, from + n)
}

proof fn lemma_trimmed_start(s: Seq<char>) -> (from: int)
    ensures
        0 <= from <= s.len(),
        trimmed_start(s) == s.subrange(from, s.len() as int),
        forall|i: int| 0 <= i < from ==> is_blank(#[trigger] s[i]),
        from < s.len() ==> !is_blank(s[from]),
    decreases s.len(),
{
    if s.len() > 0 && is_blank(s[0]) {
        let rest = s.drop_first();
        let n = lemma_trimmed_start(rest);
        assert(rest.subrange(n, rest.len() as int) =~= s.subrange(n + 1, s.len() as int));
        assert forall|i: int| 0 <= i < n + 1 implies is_blank(#[trigger] s[i]) by {
            if i > 0 {
                assert(rest[i - 1] == s[i]);
            }
        }
        if n + 1 < s.len() {
            assert(rest[n] == s[n + 1]);
        }
        n + 1
    } else {
        assert(s.subrange(0, s.len() as int) =~= s);
        0
    }
}

proof fn lemma_trimmed_end(s: Seq<char>) -> (n: int)
    ensures
        0 <= n <= s.len(),
        trimmed_end(s) == s.subrange(0, n),
        forall|i: int| n <= i < s.len() ==> is_blank(#[trigger] s[i]),
        n > 0 ==> !is_blank(s[n - 1]),
        s.len() > 0 && !is_blank(s[0]) ==> n > 0,
    decreases s.len(),
{
    if s.len() > 0 && is_blank(s.last()) {
        let front = s.drop_last();
        let n = lemma_trimmed_end(front);
        assert(front.subrange(0, n) =~= s.subrange(0, n));
        assert forall|i: int| n <= i < s.len() implies is_blank(#[trigger] s[i]) by {
            if i < front.len() {
                assert(front[i] == s[i]);
            }
        }
        n
    } else {
        assert(s.subrange(0, s.len() as int) =~= s);
        s.len() as int
    }
}

/// Splitting loses nothing but the separators: put together again with them between, the
/// pieces are the text, and none of them holds one.
pub proof fn law_pieces_make_up_the_text(s: Seq<char>, c: char)
    ensures
        joined(pieces(s, c), seq![c]) == s,
        forall|i: int|
            0 <= i < pieces(s, c).len() ==> !(#[trigger] pieces(s, c)[i]).contains(c),
    decreases s.len(),
{
    if s.len() == 0 {
        assert(pieces(s, c) =~= seq![Seq::<char>::empty()]);
        assert(joined(pieces(s, c), seq![c]) =~= s);
    } else {
        let front = s.drop_last();
        let before = pieces(front, c);
        law_pieces_make_up_the_text(front, c);
        lemma_pieces_nonempty(front, c);
        let all = pieces(s, c);
        if s.last() == c {
            assert(all.drop_last() =~= before);
            assert(joined(all, seq![c]) =~= s);
        } else {
            let grown = before.last().push(s.last());
            assert(all == before.drop_last().push(grown));
            assert(all.drop_last() =~= before.drop_last());
            if before.len() == 1 {
                assert(all.len() == 1 && all[0] == grown);
                assert(before[0] == front);
                assert(joined(all, seq![c]) =~= s);
            } else {
                let most = joined(before.drop_last(), seq![c]) + seq![c];
                assert(front == most + before.last());
                assert(joined(all, seq![c]) == most + grown);
                assert(most + grown =~= (most + before.last()).push(s.last()));
                assert(front.push(s.last()) =~= s);
            }
            assert forall|i: int| 0 <= i < all.len() implies !(#[trigger] all[i]).contains(c) by {
                if i < all.len() - 1 {
                    assert(all[i] == before[i]);
                } else {
                    assert(!before[before.len() - 1].contains(c));
                    if grown.contains(c) {
                        let k = grown.index_of(c);
                        if k < grown.len() - 1 {
                            assert(before.last()[k] == c);
                        }
                    }
                }
            }
        }
    }
}

/// Texts are put together in their order, with the separator between each two.
pub proof fn law_joining_keeps_the_order(parts: Seq<Seq<char>>, last: Seq<char>, sep: Seq<char>)
    ensures
        joined(seq![last], sep) == last,
        parts.len() > 0 ==> joined(parts.push(last), sep) == joined(parts, sep) + sep + last,
{
    assert(parts.push(last).drop_last() =~= parts);
}

/// Replacing takes the first place where the pattern stands, leaves what is before it,
/// and goes on after it; where the pattern stands nowhere the text stays as it is.
pub proof fn law_replacing_takes_every_place(
    s: Seq<char>,
    p: Seq<char>,
    with: Seq<char>,
    i: int,
)
    requires
        p.len() > 0,
    ensures
        !(has(s, p)) ==> replaced(s, p, with) == s,
        first_at(s, p, i) ==> replaced(s, p, with) == s.take(i) + with + replaced(
            s.skip(i + p.len()),
            p,
            with,
        ),
    decreases s.len(),
{
    if s.len() < p.len() {
    } else if begins_with(s, p) {
        assert(occurs_at(s, p, 0));
        if first_at(s, p, i) {
            assert(i == 0);
            assert(s.take(0) + with =~= with);
        }
    } else {
        let rest = s.skip(1);
        assert forall|k: int| 0 <= k implies occurs_at(rest, p, k) == #[trigger] occurs_at(
            s,
            p,
            k + 1,
        ) by {
            if k + p.len() <= rest.len() {
                assert(rest.subrange(k, k + p.len()) =~= s.subrange(k + 1, k + 1 + p.len()));
            }
        }
        law_replacing_takes_every_place(rest, p, with, i - 1);
        if !(has(s, p)) {
            assert forall|k: int| !occurs_at(rest, p, k) by {
                if 0 <= k {
                    assert(occurs_at(rest, p, k) == occurs_at(s, p, k + 1));
                }
            }
            assert(seq![s[0]] + rest =~= s);
        }
        if first_at(s, p, i) {
            assert(i > 0);
            assert(occurs_at(rest, p, i - 1) == occurs_at(s, p, (i - 1) + 1));
            assert forall|j: int| 0 <= j < i - 1 implies !#[trigger] occurs_at(rest, p, j) by {
                assert(occurs_at(rest, p, j) == occurs_at(s, p, j + 1));
            }
            assert(first_at(rest, p, i - 1));
            assert(rest.skip(i - 1 + p.len()) =~= s.skip(i + p.len()));
            let tail = replaced(s.skip(i + p.len()), p, with);
            assert(seq![s[0]] + (rest.take(i - 1) + with + tail) =~= s.take(i) + with + tail);
        }
    }
}

/// A text stands in another where something stands before it and something after it, and
/// only there.
pub proof fn law_texts_are_found_where_they_stand(
    before: Seq<char>,
    p: Seq<char>,
    after: Seq<char>,
    s: Seq<char>,
)
    ensures
        occurs_at(before + p + after, p, before.len() as int),
        has(before + p + after, p),
        begins_with(p + after, p),
        has(s, p) ==> exists|i: int|
            0 <= i <= s.len() - p.len() && s == #[trigger] s.take(i) + p + s.skip(i + p.len()),
{
    let all = before + p + after;
    assert(all.subrange(before.len() as int, (before.len() + p.len()) as int) =~= p);
    assert(occurs_at(all, p, before.len() as int));
    assert((p + after).subrange(0, p.len() as int) =~= p);
    if has(s, p) {
        let i = choose|i: int| occurs_at(s, p, i);
        assert(s =~= s.take(i) + s.subrange(i, i + p.len()) + s.skip(i + p.len()));
        assert(s == s.take(i) + p + s.skip(i + p.len()));
    }
}

/// A text within its cap stays as it is. A longer one is cut: its beginning stays, as
/// much of it as fits in front of the ellipsis that tells of the cut.
pub proof fn law_capped_text_keeps_its_beginning(s: Seq<char>, max: nat, r: Seq<char>)
    requires
        capped(s, max as int, r),
    ensures
        text_bytes(s) <= max ==> r == s,
        text_bytes(s) > max && max > 0 ==> {
            &&& r.len() > 0
            &&& r[r.len() - 1] == '…'
            &&& r.drop_last().is_prefix_of(s)
            &&& r.len() <= s.len()
            &&& text_bytes(r.drop_last()) < max
            &&& text_bytes(s.take(r.len() as int)) >= max
        },
        max == 0 && text_bytes(s) > 0 ==> r.len() == 0,
{
    if text_bytes(s) > max && max > 0 {
        let n = choose|n: int| #[trigger] fitting(s, max - 1, n) && r == s.take(n).push('…');
        assert(r.drop_last() =~= s.take(n));
        assert(s.take(n) =~= s.subrange(0, n));
        if n == s.len() {
            assert(s.take(n) =~= s);
        }
    }
}

/// A text takes as many bytes as its characters do in UTF-8.
pub proof fn law_bytes_are_counted_by_character(s: Seq<char>, c: char)
    ensures
        text_bytes(Seq::empty()) == 0,
        text_bytes(s.push(c)) == text_bytes(s) + (if c as int <= 0x7f {
            1int
        } else if c as int <= 0x7ff {
            2
        } else if c as int <= 0xffff {
            3
        } else {
            4
        }),
{
    assert(s.push(c).drop_last() =~= s);
}

/// The first blank of a text is blank, and nothing before it is.
pub proof fn law_the_first_blank_is_found(s: Seq<char>)
    ensures
        0 <= until_blank(s) <= s.len(),
        until_blank(s) < s.len() ==> is_blank(s[until_blank(s)]),
        forall|j: int| 0 <= j < until_blank(s) ==> !is_blank(#[trigger] s[j]),
    decreases s.len(),
{
    if s.len() > 0 && !is_blank(s[0]) {
        law_the_first_blank_is_found(s.skip(1));
        assert forall|j: int| 0 <= j < until_blank(s) implies !is_blank(#[trigger] s[j]) by {
            if j > 0 {
                assert(s.skip(1)[j - 1] == s[j]);
            }
        }
    }
}

/// A text is split at its separators, each part by itself; what follows without one goes
/// with the last piece.
pub proof fn law_parts_are_split_apart(a: Seq<char>, b: Seq<char>, c: char)
    ensures
        pieces(a + seq![c] + b, c) == pieces(a, c) + pieces(b, c),
        !b.contains(c) ==> pieces(b, c) == seq![b],
        !b.contains(c) ==> pieces(a + b, c) == pieces(a, c).drop_last().push(
            pieces(a, c).last() + b,
        ),
    decreases b.len(),
{
    let all = a + seq![c] + b;
    lemma_pieces_nonempty(a, c);
    if b.len() == 0 {
        assert(all.drop_last() =~= a);
        assert(all.last() == c);
        assert(pieces(all, c) =~= pieces(a, c) + pieces(b, c));
        assert(b =~= Seq::<char>::empty());
        assert(pieces(b, c) =~= seq![b]);
        assert(a + b =~= a);
        assert(pieces(a, c).last() + b =~= pieces(a, c).last());
        assert(pieces(a, c).drop_last().push(pieces(a, c).last()) =~= pieces(a, c));
    } else {
        let front = b.drop_last();
        law_parts_are_split_apart(a, front, c);
        lemma_pieces_nonempty(front, c);
        assert(all.drop_last() =~= a + seq![c] + front);
        assert(all.last() == b.last());
        assert(pieces(all, c) =~= pieces(a, c) + pieces(b, c));
        if !b.contains(c) {
            assert(b[b.len() - 1] != c);
            assert(!front.contains(c)) by {
                if front.contains(c) {
                    let k = front.index_of(c);
                    assert(b[k] == c);
                }
            }
            assert(front.push(b.last()) =~= b);
            assert(pieces(b, c) =~= seq![b]);
            assert((a + b).drop_last() =~= a + front);
            assert((a + b).last() == b.last());
            let before = pieces(a, c);
            assert(before.last() + b =~= (before.last() + front).push(b.last()));
            assert(before.drop_last().push(before.last() + front).drop_last()
                =~= before.drop_last());
            assert(pieces(a + b, c) =~= before.drop_last().push(before.last() + b));
        }
    }
}

/// Every text that was put together with others stands in what came of it.
pub proof fn law_joined_texts_stand_in_the_whole(parts: Seq<Seq<char>>, sep: Seq<char>, i: int)
    requires
        0 <= i < parts.len(),
    ensures
        has(joined(parts, sep), parts[i]),
    decreases parts.len(),
{
    let all = joined(parts, sep);
    if parts.len() == 1 {
        assert(all.subrange(0, all.len() as int) =~= all);
        assert(occurs_at(all, parts[0], 0));
    } else {
        let front = joined(parts.drop_last(), sep);
        let last = parts.last();
        if i == parts.len() - 1 {
            let at = (front.len() + sep.len()) as int;
            assert(all.subrange(at, at + last.len()) =~= last);
            assert(occurs_at(all, last, at));
        } else {
            law_joined_texts_stand_in_the_whole(parts.drop_last(), sep, i);
            let k = choose|k: int| occurs_at(front, parts[i], k);
            assert(all.subrange(k, k + parts[i].len()) =~= front.subrange(k, k + parts[i].len()));
            assert(occurs_at(all, parts[i], k));
        }
    }
}

/// What stands in a part stands in the whole.
pub proof fn law_parts_of_parts_stand_in_the_whole(
    before: Seq<char>,
    s: Seq<char>,
    after: Seq<char>,
    p: Seq<char>,
)
    requires
        has(s, p),
    ensures
        has(before + s + after, p),
{
    let all = before + s + after;
    let k = choose|k: int| occurs_at(s, p, k);
    let at = before.len() + k;
    assert(all.subrange(at, at + p.len()) =~= s.subrange(k, k + p.len()));
    assert(occurs_at(all, p, at));
}

/// Texts are read one by one, in their order; one thing is counted as one, and any other
/// number as several.
pub proof fn law_texts_are_read_in_order(v: Seq<String>, i: int, n: int)
    requires
        0 <= i < v.len(),
    ensures
        texts(v).len() == v.len(),
        texts(v)[i] == v[i]@,
        plural_of(1) == "y"@,
        n != 1 ==> plural_of(n) == "ies"@,
{
}

/// A text without a digit is no number: neither an empty one nor a lone sign.
pub proof fn law_numbers_have_digits(max: nat)
    ensures
        unsigned_value(Seq::empty(), max) is None,
        unsigned_value(seq!['+'], max) is None,
        signed_value(Seq::empty()) is None,
        signed_value(seq!['-']) is None,
        signed_value(seq!['+']) is None,
{
    assert(seq!['+'].drop_first() =~= Seq::<char>::empty());
    assert(seq!['-'].drop_first() =~= Seq::<char>::empty());
}

} // verus!
