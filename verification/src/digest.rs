//! Content identifiers: `algorithm:hex-digest` strings naming layer content.

use vstd::prelude::*;
use vstd::string::StrSliceExecFns;

verus! {

/// Whether `c` is a lowercase hexadecimal digit.
pub open spec fn is_hex_digit(c: char) -> bool {
    (48 <= c as u32 <= 57) || (97 <= c as u32 <= 102)
}

/// Whether `s` has the shape `algorithm:hex-digest`: a colon preceded by
/// a non-empty algorithm token and followed only by lowercase
/// hexadecimal digits.  The hex token may be empty; where the text
/// holds several colons, the split is taken at the last one.
pub open spec fn is_valid_digest(s: Seq<char>) -> bool {
    exists|i: int|
        0 < i < s.len() && #[trigger] s[i] == ':' && (forall|k: int|
            i < k < s.len() ==> is_hex_digit(#[trigger] s[k]))
}

fn is_hex_digit_char(c: char) -> (b: bool)
    ensures
        b == is_hex_digit(c),
{
    let x = c as u32;
    (48 <= x && x <= 57) || (97 <= x && x <= 102)
}

/// Decides whether a text is a well-shaped content identifier.
pub fn digest_text_is_valid(s: &str) -> (b: bool)
    ensures
        b == is_valid_digest(s@),
{
    let n = s.unicode_len();
    let mut i: usize = n;
    while i > 0
        invariant
            0 <= i <= n,
            n == s@.len(),
            forall|k: int|
                i <= k < n ==> is_hex_digit(#[trigger] s@[k]) && s@[k] != ':',
        decreases i,
    {
        i -= 1;
        let c = s.get_char(i);
        if c == ':' {
            if i > 0 {
                proof {
                    assert(0 < i < s@.len() && s@[i as int] == ':');
                }
                return true;
            } else {
                proof {
                    assert forall|j: int|
                        !(0 < j < s@.len() && s@[j] == ':' && (forall|k: int|
                            j < k < s@.len() ==> is_hex_digit(s@[k]))) by {
                        if 0 < j < s@.len() {
                            assert(s@[j] != ':');
                        }
                    }
                }
                return false;
            }
        } else if !is_hex_digit_char(c) {
            proof {
                assert forall|j: int|
                    !(0 < j < s@.len() && s@[j] == ':' && (forall|k: int|
                        j < k < s@.len() ==> is_hex_digit(s@[k]))) by {
                    if 0 < j < s@.len() && s@[j] == ':' {
                        assert(j < i);
                        assert(!is_hex_digit(s@[i as int]));
                    }
                }
            }
            return false;
        }
    }
    proof {
        assert forall|j: int|
            !(0 < j < s@.len() && s@[j] == ':' && (forall|k: int|
                j < k < s@.len() ==> is_hex_digit(s@[k]))) by {
            if 0 < j < s@.len() {
                assert(s@[j] != ':');
            }
        }
    }
    false
}

/// An `algorithm:hex-digest` string naming one layer's content.
///
/// A `Digest` stores the text exactly as given; equality of two
/// digests is equality of their texts.  [`Digest::new_checked`] is the
/// strict constructor: it admits only well-shaped texts.
#[derive(Debug, PartialEq)]
pub struct Digest {
    text: String,
}

impl View for Digest {
    type V = Seq<char>;

    /// The digest's text.
    closed spec fn view(&self) -> Seq<char> {
        self.text@
    }
}

impl Digest {
    /// Wraps a text without inspecting it.
    pub fn new(text: String) -> (d: Digest)
        ensures
            d@ == text@,
    {
        Digest { text }
    }

    /// Wraps a text only where it is a well-shaped content identifier.
    pub fn new_checked(text: String) -> (r: Result<Digest, ()>)
        ensures
            (match r {
                Ok(d) => is_valid_digest(text@) && d@ == text@,
                Err(()) => !is_valid_digest(text@),
            }),
    {
        if digest_text_is_valid(text.as_str()) {
            Ok(Digest { text })
        } else {
            Err(())
        }
    }

    /// Whether this digest's text is well shaped.
    pub open spec fn is_well_shaped(&self) -> bool {
        is_valid_digest(self@)
    }

    /// The stored text.
    pub fn as_text(&self) -> (s: &String)
        ensures
            s@ == self@,
    {
        &self.text
    }
}

} // verus!
