//! The views of values that stand in vectors and options.

use vstd::prelude::*;

verus! {

/// The views of the elements of `s`, in order.
pub open spec fn models<T: View>(s: Seq<T>) -> Seq<T::V> {
    Seq::new(s.len(), |i: int| s[i]@)
}

/// The view of an optional value.
pub open spec fn option_model<T: View>(value: Option<T>) -> Option<T::V> {
    match value {
        Some(v) => Some(v@),
        None => None,
    }
}

/// The view of an optional text.
pub open spec fn text_model(text: Option<String>) -> Option<Seq<char>> {
    option_model(text)
}

/// The views of optional texts, in order.
pub open spec fn text_models(texts: Seq<Option<String>>) -> Seq<Option<Seq<char>>> {
    Seq::new(texts.len(), |i: int| text_model(texts[i]))
}

} // verus!
