//! The rule by which an overlay is laid onto a base.

use vstd::prelude::*;

verus! {

/// A value that an overlay of its own type can be laid onto.
pub trait Mergeable: View + Sized {
    /// The model of the value that results from laying `overlay` onto `base`.
    spec fn merged(base: Self::V, overlay: Self::V) -> Self::V;

    /// Laying a value onto itself changes nothing.
    proof fn lemma_merged_same(v: Self::V)
        ensures
            Self::merged(v, v) == v,
    ;

    /// Lays `overlay` onto `self`.
    fn merge(self, overlay: Self) -> (r: Self)
        ensures
            r@ == Self::merged(self@, overlay@),
    ;
}

/// Plain text is replaced by the overlay's text.
impl Mergeable for String {
    open spec fn merged(base: Seq<char>, overlay: Seq<char>) -> Seq<char> {
        overlay
    }

    proof fn lemma_merged_same(v: Seq<char>) {
    }

    fn merge(self, overlay: Self) -> (r: Self) {
        overlay
    }
}

/// The overlay's value where it has one, else the base's.
pub open spec fn or_else<T>(overlay: Option<T>, base: Option<T>) -> Option<T> {
    if overlay is Some {
        overlay
    } else {
        base
    }
}

/// A plain optional setting is the overlay's whenever the overlay makes it,
/// and the base's otherwise.
pub proof fn lemma_or_else_is_right_biased<T>(overlay: Option<T>, base: Option<T>)
    ensures
        overlay is Some ==> or_else(overlay, base) == overlay,
        overlay is None ==> or_else(overlay, base) == base,
        or_else(base, base) == base,
{
}

/// The overlay's value where it has one, else the base's.
pub fn overlay_or<T>(overlay: Option<T>, base: Option<T>) -> (r: Option<T>)
    ensures
        r == or_else(overlay, base),
{
    match overlay {
        Some(v) => Some(v),
        None => base,
    }
}

} // verus!
