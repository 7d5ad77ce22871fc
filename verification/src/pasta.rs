use vstd::prelude::*;

use crate::text::str_eq;

verus! {

/// A file attached to a pasta, known by its name.
#[derive(Debug, Clone)]
pub struct PastaFile {
    pub name: String,
}

/// A stored pasta, as far as the endpoints read and change it.
#[derive(Debug, Clone)]
pub struct Pasta {
    /// The identifier under which the pasta is addressed in URLs.
    pub slug: String,
    pub content: String,
    pub file: Option<PastaFile>,
    pub attachments: Option<Vec<PastaFile>>,
    pub pasta_type: String,
    pub private: bool,
    pub readonly: bool,
    pub editable: bool,
    pub encrypt_server: bool,
    pub encrypt_client: bool,
    pub encrypted_key: Option<String>,
}

/// Index `i` holds the first pasta of `ps` addressed by `slug`.
pub open spec fn is_first_with_slug(ps: Seq<Pasta>, slug: Seq<char>, i: int) -> bool {
    &&& 0 <= i < ps.len()
    &&& ps[i].slug@ == slug
    &&& forall|j: int| 0 <= j < i ==> ps[j].slug@ != slug
}

/// Some pasta of `ps` is addressed by `slug`.
pub open spec fn has_slug(ps: Seq<Pasta>, slug: Seq<char>) -> bool {
    exists|i: int| 0 <= i < ps.len() && ps[i].slug@ == slug
}

/// The index of the first pasta addressed by `slug`, if there is one.
pub open spec fn lookup(ps: Seq<Pasta>, slug: Seq<char>) -> Option<int> {
    if has_slug(ps, slug) {
        Some(choose|i: int| is_first_with_slug(ps, slug, i))
    } else {
        None
    }
}

/// There is at most one first index for a slug.
pub proof fn lemma_first_with_slug_unique(ps: Seq<Pasta>, slug: Seq<char>, i: int, k: int)
    requires
        is_first_with_slug(ps, slug, i),
        is_first_with_slug(ps, slug, k),
    ensures
        i == k,
{
    if i < k {
        assert(ps[i].slug@ != slug);
    } else if k < i {
        assert(ps[k].slug@ != slug);
    }
}

/// A slug that addresses some pasta addresses a first one.
pub proof fn lemma_first_with_slug_exists(ps: Seq<Pasta>, slug: Seq<char>, k: int)
    requires
        0 <= k < ps.len(),
        ps[k].slug@ == slug,
    ensures
        exists|i: int| is_first_with_slug(ps, slug, i),
    decreases k,
{
    if exists|j: int| 0 <= j < k && ps[j].slug@ == slug {
        let j = choose|j: int| 0 <= j < k && ps[j].slug@ == slug;
        lemma_first_with_slug_exists(ps, slug, j);
    } else {
        assert(is_first_with_slug(ps, slug, k));
    }
}

/// `lookup` gives the first pasta addressed by the slug.
pub proof fn lemma_lookup_is_first(ps: Seq<Pasta>, slug: Seq<char>)
    ensures
        lookup(ps, slug) matches Some(i) ==> is_first_with_slug(ps, slug, i),
{
    if has_slug(ps, slug) {
        let k = choose|k: int| 0 <= k < ps.len() && ps[k].slug@ == slug;
        lemma_first_with_slug_exists(ps, slug, k);
    }
}

impl Pasta {
    /// Finds the position of the first pasta addressed by `slug`.
    pub fn find_index(pastas: &Vec<Pasta>, slug: &str) -> (res: Option<usize>)
        ensures
            res matches Some(i) ==> is_first_with_slug(pastas@, slug@, i as int),
            res is None <==> !has_slug(pastas@, slug@),
            res matches Some(i) ==> lookup(pastas@, slug@) == Some(i as int),
            res is None ==> lookup(pastas@, slug@) is None,
    {
        let mut i: usize = 0;
        while i < pastas.len()
            invariant
                i <= pastas@.len(),
                forall|j: int| 0 <= j < i ==> pastas@[j].slug@ != slug@,
            decreases pastas@.len() - i,
        {
            if str_eq(pastas[i].slug.as_str(), slug) {
                proof {
                    assert(is_first_with_slug(pastas@, slug@, i as int));
                    let k = choose|k: int| is_first_with_slug(pastas@, slug@, k);
                    lemma_first_with_slug_unique(pastas@, slug@, i as int, k);
                }
                return Some(i);
            }
            i = i + 1;
        }
        None
    }
}

} // verus!

verus! {

/// `lookup` finds a pasta exactly when one is addressed by the slug, and
/// then the first such pasta of the store.
pub proof fn lemma_lookup_finds_first(ps: Seq<Pasta>, slug: Seq<char>)
    ensures
        (lookup(ps, slug) is None) <==> (forall|j: int| 0 <= j < ps.len() ==> #[trigger] ps[j].slug@ != slug),
        lookup(ps, slug) matches Some(i) ==> 0 <= i < ps.len() && ps[i].slug@ == slug && forall|j: int|
            0 <= j < i ==> #[trigger] ps[j].slug@ != slug,
{
    lemma_lookup_is_first(ps, slug);
    if !has_slug(ps, slug) {
        assert forall|j: int| 0 <= j < ps.len() implies #[trigger] ps[j].slug@ != slug by {
            if ps[j].slug@ == slug {
                assert(has_slug(ps, slug));
            }
        }
    }
}

} // verus!
