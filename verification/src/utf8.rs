//! A verified UTF-8 validity check over byte sequences, used to reject
//! object headers that are not valid text.

use vstd::prelude::*;

verus! {

/// Whether `b` is a UTF-8 continuation byte.
pub open spec fn is_cont(b: u8) -> bool {
    128 <= b <= 191
}

/// The length of the well-formed UTF-8 encoding that starts at index `i`
/// of `s`, or 0 when no well-formed encoding starts there. Overlong forms
/// and surrogate code points are excluded, as in the UTF-8 definition.
pub open spec fn utf8_step(s: Seq<u8>, i: int) -> int {
    let b0 = s[i];
    if b0 < 128 {
        1
    } else if 194 <= b0 <= 223 {
        if i + 2 <= s.len() && is_cont(s[i + 1]) {
            2
        } else {
            0
        }
    } else if b0 == 224 {
        if i + 3 <= s.len() && 160 <= s[i + 1] <= 191 && is_cont(s[i + 2]) {
            3
        } else {
            0
        }
    } else if 225 <= b0 <= 236 || 238 <= b0 <= 239 {
        if i + 3 <= s.len() && is_cont(s[i + 1]) && is_cont(s[i + 2]) {
            3
        } else {
            0
        }
    } else if b0 == 237 {
        if i + 3 <= s.len() && 128 <= s[i + 1] <= 159 && is_cont(s[i + 2]) {
            3
        } else {
            0
        }
    } else if b0 == 240 {
        if i + 4 <= s.len() && 144 <= s[i + 1] <= 191 && is_cont(s[i + 2]) && is_cont(s[i + 3]) {
            4
        } else {
            0
        }
    } else if 241 <= b0 <= 243 {
        if i + 4 <= s.len() && is_cont(s[i + 1]) && is_cont(s[i + 2]) && is_cont(s[i + 3]) {
            4
        } else {
            0
        }
    } else if b0 == 244 {
        if i + 4 <= s.len() && 128 <= s[i + 1] <= 143 && is_cont(s[i + 2]) && is_cont(s[i + 3]) {
            4
        } else {
            0
        }
    } else {
        0
    }
}

/// Whether `s` is a sequence of well-formed UTF-8 encodings from index `i`
/// to its end.
pub open spec fn utf8_from(s: Seq<u8>, i: int) -> bool
    decreases s.len() - i when 0 <= i <= s.len()
{
    if i >= s.len() {
        true
    } else {
        let k = utf8_step(s, i);
        k > 0 && utf8_from(s, i + k)
    }
}

/// Whether `s` is valid UTF-8.
pub open spec fn is_utf8(s: Seq<u8>) -> bool {
    utf8_from(s, 0)
}

/// Every all-ASCII sequence is valid UTF-8 from any starting index.
pub proof fn lemma_ascii_utf8_from(s: Seq<u8>, i: int)
    requires
        0 <= i <= s.len(),
        forall|j: int| 0 <= j < s.len() ==> #[trigger] s[j] < 128,
    ensures
        utf8_from(s, i),
    decreases s.len() - i,
{
    if i < s.len() {
        assert(utf8_step(s, i) == 1);
        lemma_ascii_utf8_from(s, i + 1);
    }
}

/// Every all-ASCII sequence is valid UTF-8.
pub proof fn lemma_ascii_is_utf8(s: Seq<u8>)
    requires
        forall|j: int| 0 <= j < s.len() ==> #[trigger] s[j] < 128,
    ensures
        is_utf8(s),
{
    lemma_ascii_utf8_from(s, 0);
}

/// The length of the well-formed encoding starting at index `i`, or 0.
fn utf8_step_at(s: &[u8], i: usize) -> (r: usize)
    requires
        i < s@.len(),
    ensures
        r as int == utf8_step(s@, i as int),
{
    let b0 = s[i];
    let rem = s.len() - i;
    if b0 < 128 {
        1
    } else if 194 <= b0 && b0 <= 223 {
        if rem >= 2 && 128 <= s[i + 1] && s[i + 1] <= 191 {
            2
        } else {
            0
        }
    } else if b0 == 224 {
        if rem >= 3 && 160 <= s[i + 1] && s[i + 1] <= 191 && 128 <= s[i + 2] && s[i + 2] <= 191 {
            3
        } else {
            0
        }
    } else if (225 <= b0 && b0 <= 236) || b0 == 238 || b0 == 239 {
        if rem >= 3 && 128 <= s[i + 1] && s[i + 1] <= 191 && 128 <= s[i + 2] && s[i + 2] <= 191 {
            3
        } else {
            0
        }
    } else if b0 == 237 {
        if rem >= 3 && 128 <= s[i + 1] && s[i + 1] <= 159 && 128 <= s[i + 2] && s[i + 2] <= 191 {
            3
        } else {
            0
        }
    } else if b0 == 240 {
        if rem >= 4 && 144 <= s[i + 1] && s[i + 1] <= 191 && 128 <= s[i + 2] && s[i + 2] <= 191
            && 128 <= s[i + 3] && s[i + 3] <= 191 {
            4
        } else {
            0
        }
    } else if 241 <= b0 && b0 <= 243 {
        if rem >= 4 && 128 <= s[i + 1] && s[i + 1] <= 191 && 128 <= s[i + 2] && s[i + 2] <= 191
            && 128 <= s[i + 3] && s[i + 3] <= 191 {
            4
        } else {
            0
        }
    } else if b0 == 244 {
        if rem >= 4 && 128 <= s[i + 1] && s[i + 1] <= 143 && 128 <= s[i + 2] && s[i + 2] <= 191
            && 128 <= s[i + 3] && s[i + 3] <= 191 {
            4
        } else {
            0
        }
    } else {
        0
    }
}

/// Check whether `s` is valid UTF-8.
pub fn check_utf8(s: &[u8]) -> (r: bool)
    ensures
        r == is_utf8(s@),
{
    let mut i: usize = 0;
    while i < s.len()
        invariant
            0 <= i <= s@.len(),
            is_utf8(s@) == utf8_from(s@, i as int),
        decreases s@.len() - i,
    {
        let k = utf8_step_at(s, i);
        if k == 0 {
            return false;
        }
        i = i + k;
    }
    true
}

} // verus!
