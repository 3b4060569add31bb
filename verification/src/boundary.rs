//! Token boundaries: where the first separator-free run of a sequence ends.

use vstd::prelude::*;

verus! {

/// `b` is the boundary of the first token of `text` with respect to `sep`:
/// nothing before `b` is a separator, and `b` is either the end of the text
/// or the position of a separator.
pub open spec fn is_boundary<T>(text: Seq<T>, sep: T, b: int) -> bool {
    &&& 0 <= b <= text.len()
    &&& forall|i: int| 0 <= i < b ==> text[i] != sep
    &&& (b == text.len() || text[b] == sep)
}

/// The boundary of the first token of `text`: the position of the first
/// separator, or the length of the text when it holds none.
pub open spec fn boundary_of<T>(text: Seq<T>, sep: T) -> nat
    decreases text.len(),
{
    if text.len() == 0 || text[0] == sep {
        0
    } else {
        1 + boundary_of(text.drop_first(), sep)
    }
}

/// Every text has exactly one boundary, and `boundary_of` names it.
pub proof fn boundary_is_unique<T>(text: Seq<T>, sep: T, b: int)
    ensures
        is_boundary(text, sep, b) <==> b == boundary_of(text, sep),
    decreases text.len(),
{
    if text.len() == 0 || text[0] == sep {
        if is_boundary(text, sep, b) && b > 0 {
            assert(text[0] != sep);
        }
    } else {
        let rest = text.drop_first();
        boundary_is_unique(rest, sep, b - 1);
        if is_boundary(text, sep, b) {
            assert(b > 0);
            assert forall|i: int| 0 <= i < b - 1 implies rest[i] != sep by {
                assert(rest[i] == text[i + 1]);
            }
            assert(is_boundary(rest, sep, b - 1));
        }
        if b == boundary_of(text, sep) {
            assert(is_boundary(rest, sep, b - 1));
            assert forall|i: int| 0 <= i < b implies text[i] != sep by {
                if i > 0 {
                    assert(text[i] == rest[i - 1]);
                }
            }
            assert(b == text.len() || text[b] == sep) by {
                if b - 1 != rest.len() {
                    assert(rest[b - 1] == text[b]);
                }
            }
        }
    }
}

/// In front of a text, a run that holds no separator moves the boundary by
/// its own length.
pub proof fn boundary_after_prefix<T>(head: Seq<T>, tail: Seq<T>, sep: T)
    requires
        forall|i: int| 0 <= i < head.len() ==> head[i] != sep,
    ensures
        boundary_of(head + tail, sep) == head.len() + boundary_of(tail, sep),
    decreases head.len(),
{
    if head.len() == 0 {
        assert(head + tail =~= tail);
    } else {
        let rest = head.drop_first();
        assert((head + tail)[0] == head[0]);
        assert((head + tail).drop_first() =~= rest + tail);
        assert forall|i: int| 0 <= i < rest.len() implies rest[i] != sep by {
            assert(rest[i] == head[i + 1]);
        }
        boundary_after_prefix(rest, tail, sep);
    }
}

/// Scans `text` from the start and returns the boundary of its first token.
pub fn find_boundary(text: &[u8], sep: u8) -> (b: usize)
    ensures
        is_boundary(text@, sep, b as int),
        b == boundary_of(text@, sep),
{
    let mut i: usize = 0;
    while i < text.len()
        invariant
            i <= text.len(),
            forall|j: int| 0 <= j < i ==> text@[j] != sep,
        decreases text.len() - i,
    {
        if text[i] == sep {
            proof {
                boundary_is_unique(text@, sep, i as int);
            }
            return i;
        }
        i += 1;
    }
    proof {
        boundary_is_unique(text@, sep, i as int);
    }
    i
}

} // verus!
