//! What a connection's bytes become before they are handled: decoded text,
//! stripped of NUL padding and of surrounding white space.

use vstd::prelude::*;
use vstd::utf8::{decode_utf8, valid_utf8};

use crate::handler::is_space;

verus! {

/// The characters that a trimming pass removes from both ends.
pub enum Padding {
    Nul,
    Space,
}

pub open spec fn is_padding(kind: Padding, c: char) -> bool {
    match kind {
        Padding::Nul => c == '\0',
        Padding::Space => is_space(c),
    }
}

/// How many characters at the front of `s` are padding.
pub open spec fn leading(s: Seq<char>, kind: Padding) -> nat
    decreases s.len(),
{
    if s.len() > 0 && is_padding(kind, s[0]) {
        1 + leading(s.drop_first(), kind)
    } else {
        0
    }
}

/// How many characters at the back of `s` are padding.
pub open spec fn trailing(s: Seq<char>, kind: Padding) -> nat
    decreases s.len(),
{
    if s.len() > 0 && is_padding(kind, s.last()) {
        1 + trailing(s.drop_last(), kind)
    } else {
        0
    }
}

/// `s` without the padding at either end.
pub open spec fn strip(s: Seq<char>, kind: Padding) -> Seq<char> {
    if leading(s, kind) == s.len() {
        Seq::empty()
    } else {
        s.subrange(leading(s, kind) as int, s.len() - trailing(s, kind))
    }
}

/// `s` without NUL padding at either end, then without white space at
/// either end.
pub open spec fn trimmed(s: Seq<char>) -> Seq<char> {
    strip(strip(s, Padding::Nul), Padding::Space)
}

/// The text that `bytes` decode to, each invalid sequence replaced by
/// U+FFFD.
pub uninterp spec fn lossy_text(bytes: Seq<u8>) -> Seq<char>;

/// Relies on `String::from_utf8_lossy`: its result depends on the bytes
/// alone, and valid UTF-8 decodes without replacement.
#[verifier::external_body]
fn decode_lossy(bytes: &[u8]) -> (r: String)
    ensures
        r@ == lossy_text(bytes@),
        valid_utf8(bytes@) ==> r@ == decode_utf8(bytes@),
{
    String::from_utf8_lossy(bytes).into_owned()
}

proof fn lemma_leading(s: Seq<char>, kind: Padding, i: int)
    requires
        0 <= i <= s.len(),
        forall|j: int| 0 <= j < i ==> is_padding(kind, s[j]),
        i == s.len() || !is_padding(kind, s[i]),
    ensures
        leading(s, kind) == i,
    decreases i,
{
    if i > 0 {
        lemma_leading(s.drop_first(), kind, i - 1);
    }
}

proof fn lemma_trailing(s: Seq<char>, kind: Padding, k: int)
    requires
        0 <= k <= s.len(),
        forall|j: int| 0 <= j < k ==> is_padding(kind, #[trigger] s[s.len() - 1 - j]),
        k == s.len() || !is_padding(kind, s[s.len() - 1 - k]),
    ensures
        trailing(s, kind) == k,
    decreases k,
{
    if k > 0 {
        let t = s.drop_last();
        assert forall|j: int| 0 <= j < k - 1 implies is_padding(kind, #[trigger] t[t.len() - 1 - j]) by {
            assert(t[t.len() - 1 - j] == s[s.len() - 1 - (j + 1)]);
        }
        lemma_trailing(t, kind, k - 1);
    }
}

fn padding_char(kind: &Padding, c: char) -> (r: bool)
    ensures
        r == is_padding(*kind, c),
{
    match kind {
        Padding::Nul => c == '\0',
        Padding::Space => crate::handler::is_space_char(c),
    }
}

/// `s` without the padding at either end.
pub fn strip_padding(s: &str, kind: Padding) -> (r: String)
    ensures
        r@ == strip(s@, kind),
{
    let n = s.unicode_len();
    let mut a: usize = 0;
    while a < n && padding_char(&kind, s.get_char(a))
        invariant
            n == s@.len(),
            a <= n,
            forall|j: int| 0 <= j < a ==> is_padding(kind, s@[j]),
        decreases n - a,
    {
        a = a + 1;
    }
    proof {
        lemma_leading(s@, kind, a as int);
    }
    if a == n {
        return String::new();
    }
    let mut k: usize = 0;
    while k < n - a && padding_char(&kind, s.get_char(n - 1 - k))
        invariant
            n == s@.len(),
            a < n,
            k <= n - a,
            forall|j: int| 0 <= j < k ==> is_padding(kind, #[trigger] s@[s@.len() - 1 - j]),
        decreases n - a - k,
    {
        k = k + 1;
    }
    proof {
        if k == n - a {
            assert(s@[s@.len() - 1 - (k - 1)] == s@[a as int]);
        }
        lemma_trailing(s@, kind, k as int);
    }
    String::from_str(s.substring_char(a, n - k))
}

/// `s` without NUL padding at either end, then without white space at
/// either end.
pub fn trim_request(s: &str) -> (r: String)
    ensures
        r@ == trimmed(s@),
{
    let inner = strip_padding(s, Padding::Nul);
    strip_padding(inner.as_str(), Padding::Space)
}

/// The request text that a connection's bytes carry: decoded with
/// replacement of invalid sequences, then trimmed.
pub fn request_text(bytes: &[u8]) -> (r: String)
    ensures
        r@ == trimmed(lossy_text(bytes@)),
        valid_utf8(bytes@) ==> r@ == trimmed(decode_utf8(bytes@)),
{
    let text = decode_lossy(bytes);
    trim_request(text.as_str())
}

} // verus!
