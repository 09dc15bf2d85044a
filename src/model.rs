use vstd::prelude::*;

verus! {

/// The abstract state of a store: a finite map from key to value.
pub type StoreMap = Map<Seq<char>, Seq<char>>;

/// What a read of `k` in `m` reports: the stored value, or `None` for not found.
pub open spec fn lookup(m: StoreMap, k: Seq<char>) -> Option<Seq<char>> {
    if m.contains_key(k) {
        Some(m[k])
    } else {
        None
    }
}

/// The abstract view of an optional string result.
pub open spec fn opt_view(o: Option<String>) -> Option<Seq<char>> {
    match o {
        Some(s) => Some(s@),
        None => None,
    }
}

} // verus!
