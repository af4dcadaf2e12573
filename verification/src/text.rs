//! Small text utilities: Unicode white space, trimming, equality.

use crate::clipboard::constant_time_equal;
use vstd::prelude::*;
use vstd::string::{StrSliceExecFns, StringSliceAdditionalSpecFns};
use vstd::utf8::{encode_utf8, encode_utf8_decode_utf8};

verus! {

/// The characters with the Unicode `White_Space` property (what
/// `char::is_whitespace` tests).
pub open spec fn unicode_whitespace(c: char) -> bool {
    let u = c as u32;
    ||| 0x09 <= u <= 0x0D
    ||| u == 0x20
    ||| u == 0x85
    ||| u == 0xA0
    ||| u == 0x1680
    ||| 0x2000 <= u <= 0x200A
    ||| u == 0x2028
    ||| u == 0x2029
    ||| u == 0x202F
    ||| u == 0x205F
    ||| u == 0x3000
}

/// Whether `c` is Unicode white space.
pub fn is_whitespace(c: char) -> (ws: bool)
    ensures
        ws == unicode_whitespace(c),
{
    let u = c as u32;
    (0x09 <= u && u <= 0x0D) || u == 0x20 || u == 0x85 || u == 0xA0 || u == 0x1680 || (0x2000
        <= u && u <= 0x200A) || u == 0x2028 || u == 0x2029 || u == 0x202F || u == 0x205F || u
        == 0x3000
}

/// The number of white-space characters at the start of `s`.
pub open spec fn leading_ws(s: Seq<char>) -> nat
    decreases s.len(),
{
    if s.len() > 0 && unicode_whitespace(s[0]) {
        1 + leading_ws(s.drop_first())
    } else {
        0
    }
}

/// The number of white-space characters at the end of `s`.
pub open spec fn trailing_ws(s: Seq<char>) -> nat
    decreases s.len(),
{
    if s.len() > 0 && unicode_whitespace(s.last()) {
        1 + trailing_ws(s.drop_last())
    } else {
        0
    }
}

/// `s` without leading and trailing white space (what `str::trim` returns).
pub open spec fn trim_chars(s: Seq<char>) -> Seq<char> {
    let rest = s.subrange(leading_ws(s) as int, s.len() as int);
    rest.subrange(0, rest.len() - trailing_ws(rest))
}

/// `leading_ws` counts exactly the white-space prefix.
pub proof fn lemma_leading_ws(s: Seq<char>)
    ensures
        leading_ws(s) <= s.len(),
        forall|k: int| 0 <= k < leading_ws(s) ==> unicode_whitespace(#[trigger] s[k]),
        leading_ws(s) < s.len() ==> !unicode_whitespace(s[leading_ws(s) as int]),
    decreases s.len(),
{
    if s.len() > 0 && unicode_whitespace(s[0]) {
        lemma_leading_ws(s.drop_first());
        assert forall|k: int| 0 <= k < leading_ws(s) implies unicode_whitespace(#[trigger] s[k]) by {
            if k > 0 {
                assert(s[k] == s.drop_first()[k - 1]);
            }
        }
    }
}

/// `trailing_ws` counts exactly the white-space suffix.
pub proof fn lemma_trailing_ws(s: Seq<char>)
    ensures
        trailing_ws(s) <= s.len(),
        forall|k: int| s.len() - trailing_ws(s) <= k < s.len() ==> unicode_whitespace(#[trigger] s[k]),
        trailing_ws(s) < s.len() ==> !unicode_whitespace(s[s.len() - trailing_ws(s) - 1]),
    decreases s.len(),
{
    if s.len() > 0 && unicode_whitespace(s.last()) {
        lemma_trailing_ws(s.drop_last());
        assert forall|k: int| s.len() - trailing_ws(s) <= k < s.len() implies unicode_whitespace(
            #[trigger] s[k],
        ) by {
            if k < s.len() - 1 {
                assert(s[k] == s.drop_last()[k]);
            }
        }
    }
}

/// A white-space prefix of length `k` followed by a non-space (or the end)
/// is the one `leading_ws` counts.
pub proof fn lemma_leading_ws_unique(s: Seq<char>, k: int)
    requires
        0 <= k <= s.len(),
        forall|m: int| 0 <= m < k ==> unicode_whitespace(#[trigger] s[m]),
        k < s.len() ==> !unicode_whitespace(s[k]),
    ensures
        leading_ws(s) == k,
    decreases s.len(),
{
    if k > 0 {
        assert(unicode_whitespace(s[0]));
        assert forall|m: int| 0 <= m < k - 1 implies unicode_whitespace(#[trigger] s.drop_first()[m]) by {
            assert(s.drop_first()[m] == s[m + 1]);
        }
        lemma_leading_ws_unique(s.drop_first(), k - 1);
    }
}

/// A white-space suffix of length `k` preceded by a non-space (or the start)
/// is the one `trailing_ws` counts.
pub proof fn lemma_trailing_ws_unique(s: Seq<char>, k: int)
    requires
        0 <= k <= s.len(),
        forall|m: int| s.len() - k <= m < s.len() ==> unicode_whitespace(#[trigger] s[m]),
        k < s.len() ==> !unicode_whitespace(s[s.len() - k - 1]),
    ensures
        trailing_ws(s) == k,
    decreases s.len(),
{
    if k > 0 {
        assert(unicode_whitespace(s[s.len() - 1]));
        let p = s.drop_last();
        assert forall|m: int| p.len() - (k - 1) <= m < p.len() implies unicode_whitespace(
            #[trigger] p[m],
        ) by {
            assert(p[m] == s[m]);
        }
        if k - 1 < p.len() {
            assert(p[p.len() - (k - 1) - 1] == s[s.len() - k - 1]);
        }
        lemma_trailing_ws_unique(p, k - 1);
    }
}

/// A non-empty text is its own trim exactly when it neither starts nor ends
/// with white space.
pub proof fn lemma_trim_fixed(s: Seq<char>)
    requires
        s.len() > 0,
    ensures
        (trim_chars(s) == s) <==> (!unicode_whitespace(s[0]) && !unicode_whitespace(s.last())),
{
    lemma_leading_ws(s);
    let rest = s.subrange(leading_ws(s) as int, s.len() as int);
    lemma_trailing_ws(rest);
    if !unicode_whitespace(s[0]) && !unicode_whitespace(s.last()) {
        assert(leading_ws(s) == 0);
        assert(rest =~= s);
        assert(trailing_ws(rest) == 0);
        assert(trim_chars(s) =~= s);
    } else if trim_chars(s) == s {
        assert(trim_chars(s).len() == s.len());
        assert(leading_ws(s) == 0);
        assert(rest =~= s);
        assert(trailing_ws(rest) == 0);
    }
}

/// The text of `s` without leading and trailing white space.
pub fn trim(s: &str) -> (t: String)
    ensures
        t@ == trim_chars(s@),
{
    let n = s.unicode_len();
    let mut start: usize = 0;
    while start < n && is_whitespace(s.get_char(start))
        invariant
            n == s@.len(),
            0 <= start <= n,
            forall|m: int| 0 <= m < start ==> unicode_whitespace(#[trigger] s@[m]),
        decreases n - start,
    {
        start = start + 1;
    }
    proof {
        lemma_leading_ws_unique(s@, start as int);
    }
    let ghost rest = s@.subrange(start as int, n as int);
    let mut end: usize = n;
    while end > start && is_whitespace(s.get_char(end - 1))
        invariant
            n == s@.len(),
            0 <= start <= end <= n,
            rest == s@.subrange(start as int, n as int),
            forall|m: int| end <= m < n ==> unicode_whitespace(#[trigger] s@[m]),
        decreases end - start,
    {
        end = end - 1;
    }
    proof {
        let k = (n - end) as int;
        assert forall|m: int| rest.len() - k <= m < rest.len() implies unicode_whitespace(
            #[trigger] rest[m],
        ) by {
            assert(rest[m] == s@[m + start]);
        }
        if k < rest.len() {
            assert(rest[rest.len() - k - 1] == s@[end - 1]);
        }
        lemma_trailing_ws_unique(rest, k);
    }
    let t = String::from_str(s.substring_char(start, end));
    assert(t@ =~= trim_chars(s@));
    t
}

/// Whether two texts are the same characters.
pub fn same_text(a: &str, b: &str) -> (same: bool)
    ensures
        same == (a@ == b@),
{
    let same = constant_time_equal(a.as_bytes(), b.as_bytes());
    proof {
        encode_utf8_decode_utf8(a@);
        encode_utf8_decode_utf8(b@);
    }
    same
}

/// UTF-8 encoding distributes over concatenation.
pub proof fn lemma_encode_utf8_concat(a: Seq<char>, b: Seq<char>)
    ensures
        encode_utf8(a + b) == encode_utf8(a) + encode_utf8(b),
    decreases a.len(),
{
    if a.len() == 0 {
        assert(a + b =~= b);
        assert(encode_utf8(a) =~= Seq::<u8>::empty());
        assert(encode_utf8(a) + encode_utf8(b) =~= encode_utf8(b));
    } else {
        assert((a + b).drop_first() =~= a.drop_first() + b);
        assert((a + b)[0] == a[0]);
        lemma_encode_utf8_concat(a.drop_first(), b);
        assert(encode_utf8(a + b) =~= encode_utf8(a) + encode_utf8(b));
    }
}

/// Trimming never lengthens a text, in characters or in UTF-8 bytes.
pub proof fn lemma_trim_shrinks(s: Seq<char>)
    ensures
        trim_chars(s).len() <= s.len(),
        encode_utf8(trim_chars(s)).len() <= encode_utf8(s).len(),
{
    lemma_leading_ws(s);
    let lead = leading_ws(s) as int;
    let rest = s.subrange(lead, s.len() as int);
    lemma_trailing_ws(rest);
    let t = trim_chars(s);
    let tail = rest.subrange(rest.len() - trailing_ws(rest), rest.len() as int);
    assert(s =~= s.subrange(0, lead) + rest);
    assert(rest =~= t + tail);
    lemma_encode_utf8_concat(s.subrange(0, lead), rest);
    lemma_encode_utf8_concat(t, tail);
}

} // verus!
