use vstd::prelude::*;

verus! {

/// The parent scope that an operation works under: the one the caller
/// named, or the database's document root where the caller named none.
pub open spec fn spec_effective_scope(parent: Option<Seq<char>>, documents_path: Seq<char>) -> Seq<
    char,
> {
    match parent {
        Some(scope) => scope,
        None => documents_path,
    }
}

/// Picks the parent scope of an operation.
pub fn effective_scope<'a>(parent: Option<&'a str>, documents_path: &'a str) -> (scope: &'a str)
    ensures
        scope@ == spec_effective_scope(
            match parent {
                Some(given) => Some(given@),
                None => None,
            },
            documents_path@,
        ),
        parent is Some ==> scope == parent->Some_0,
        parent is None ==> scope == documents_path,
{
    match parent {
        Some(given) => given,
        None => documents_path,
    }
}

} // verus!
