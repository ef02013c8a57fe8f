//! The closed set of object kinds and their ASCII tokens.

use vstd::prelude::*;

verus! {

/// The type tag of a stored object, rendered in the header as a lowercase
/// ASCII token.
#[derive(Clone, Copy, Debug, PartialEq, Eq, Structural)]
pub enum Kind {
    Blob,
    Tree,
    Commit,
}

/// The ASCII token that names a kind in an object header
/// (`"blob"`, `"tree"` or `"commit"`).
pub open spec fn token_of(k: Kind) -> Seq<u8> {
    match k {
        Kind::Blob => seq![98u8, 108u8, 111u8, 98u8],
        Kind::Tree => seq![116u8, 114u8, 101u8, 101u8],
        Kind::Commit => seq![99u8, 111u8, 109u8, 109u8, 105u8, 116u8],
    }
}

/// The kind named by a token, if it is one of the supported set.
pub open spec fn kind_of_token(t: Seq<u8>) -> Option<Kind> {
    if t == token_of(Kind::Blob) {
        Some(Kind::Blob)
    } else if t == token_of(Kind::Tree) {
        Some(Kind::Tree)
    } else if t == token_of(Kind::Commit) {
        Some(Kind::Commit)
    } else {
        None
    }
}

/// Token bytes are lowercase ASCII letters: never NUL, never a space,
/// always below 128.
pub proof fn lemma_token_bytes(k: Kind)
    ensures
        1 <= token_of(k).len() <= 6,
        forall|j: int| 0 <= j < token_of(k).len() ==> 98 <= #[trigger] token_of(k)[j] <= 116,
{
    match k {
        Kind::Blob => {
            assert forall|j: int| 0 <= j < token_of(k).len() implies 98 <= #[trigger] token_of(
                k,
            )[j] <= 116 by {
                if j == 0 {
                } else if j == 1 {
                } else if j == 2 {
                } else {
                    assert(j == 3);
                }
            }
        },
        Kind::Tree => {
            assert forall|j: int| 0 <= j < token_of(k).len() implies 98 <= #[trigger] token_of(
                k,
            )[j] <= 116 by {
                if j == 0 {
                } else if j == 1 {
                } else if j == 2 {
                } else {
                    assert(j == 3);
                }
            }
        },
        Kind::Commit => {
            assert forall|j: int| 0 <= j < token_of(k).len() implies 98 <= #[trigger] token_of(
                k,
            )[j] <= 116 by {
                if j == 0 {
                } else if j == 1 {
                } else if j == 2 {
                } else if j == 3 {
                } else if j == 4 {
                } else {
                    assert(j == 5);
                }
            }
        },
    }
}

/// Recognising the token of a kind gives back that kind.
pub proof fn lemma_kind_token_round(k: Kind)
    ensures
        kind_of_token(token_of(k)) == Some(k),
{
    assert(token_of(Kind::Blob)[0] == 98);
    assert(token_of(Kind::Tree)[0] == 116);
    assert(token_of(Kind::Commit).len() == 6);
    assert(token_of(Kind::Blob).len() == 4);
    assert(token_of(Kind::Tree).len() == 4);
}

impl Kind {
    /// The token bytes written into a header for this kind.
    pub fn token(self) -> (r: Vec<u8>)
        ensures
            r@ == token_of(self),
    {
        match self {
            Kind::Blob => {
                let v: Vec<u8> = vec![98u8, 108u8, 111u8, 98u8];
                proof {
                    assert(v@ =~= token_of(Kind::Blob));
                }
                v
            },
            Kind::Tree => {
                let v: Vec<u8> = vec![116u8, 114u8, 101u8, 101u8];
                proof {
                    assert(v@ =~= token_of(Kind::Tree));
                }
                v
            },
            Kind::Commit => {
                let v: Vec<u8> = vec![99u8, 111u8, 109u8, 109u8, 105u8, 116u8];
                proof {
                    assert(v@ =~= token_of(Kind::Commit));
                }
                v
            },
        }
    }
}

/// Recognise a token, distinguishing a supported kind from an unknown one.
pub fn parse_kind(t: &[u8]) -> (r: Option<Kind>)
    ensures
        r == kind_of_token(t@),
{
    if t.len() == 4 && t[0] == 98 && t[1] == 108 && t[2] == 111 && t[3] == 98 {
        proof {
            assert(t@ =~= token_of(Kind::Blob));
        }
        Some(Kind::Blob)
    } else if t.len() == 4 && t[0] == 116 && t[1] == 114 && t[2] == 101 && t[3] == 101 {
        proof {
            assert(t@ =~= token_of(Kind::Tree));
        }
        Some(Kind::Tree)
    } else if t.len() == 6 && t[0] == 99 && t[1] == 111 && t[2] == 109 && t[3] == 109
        && t[4] == 105 && t[5] == 116 {
        proof {
            assert(t@ =~= token_of(Kind::Commit));
        }
        Some(Kind::Commit)
    } else {
        proof {
            assert(t@ != token_of(Kind::Blob));
            assert(t@ != token_of(Kind::Tree));
            assert(t@ != token_of(Kind::Commit));
        }
        None
    }
}

} // verus!
