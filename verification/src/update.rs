use vstd::prelude::*;

use crate::pasta::{has_slug, lemma_first_with_slug_unique, lemma_lookup_is_first, lookup, Pasta};

verus! {

/// The store `ps` with the content of the pasta at `i` set to `c`.
pub open spec fn with_content(ps: Seq<Pasta>, i: int, c: String) -> Seq<Pasta> {
    ps.update(i, Pasta { content: c, ..ps[i] })
}

/// `new` is `old` with the content of the pasta at `i` replaced by text
/// reading `c`, every other pasta and field left as it was.
pub open spec fn content_replaced(old: Seq<Pasta>, new: Seq<Pasta>, i: int, c: Seq<char>) -> bool {
    &&& 0 <= i < old.len()
    &&& new.len() == old.len()
    &&& forall|j: int| 0 <= j < old.len() && j != i ==> new[j] == old[j]
    &&& new[i].content@ == c
    &&& new[i] == Pasta { content: new[i].content, ..old[i] }
}

/// Puts `content` into the pasta at `index`, returning the content it held.
pub(crate) fn swap_content(pastas: &mut Vec<Pasta>, index: usize, content: String) -> (previous: String)
    requires
        index < old(pastas)@.len(),
    ensures
        final(pastas)@ == with_content(old(pastas)@, index as int, content),
        previous == old(pastas)@[index as int].content,
{
    let mut content = content;
    let ghost before = pastas@;
    std::mem::swap(&mut pastas[index].content, &mut content);
    assert(pastas@ =~= with_content(before, index as int, pastas@[index as int].content));
    content
}

/// Restores the content that `swap_content` returned for the pasta at `index`.
pub fn restore_content(pastas: &mut Vec<Pasta>, index: usize, original: String)
    requires
        index < old(pastas)@.len(),
    ensures
        final(pastas)@ == with_content(old(pastas)@, index as int, original),
{
    let _ = swap_content(pastas, index, original);
}

} // verus!

verus! {

/// Both stores address the same pastas at the same places.
pub open spec fn same_slugs(a: Seq<Pasta>, b: Seq<Pasta>) -> bool {
    a.len() == b.len() && forall|j: int| 0 <= j < a.len() ==> #[trigger] a[j].slug@ == b[j].slug@
}

/// Stores that address the same pastas at the same places answer every
/// lookup alike.
pub proof fn lemma_same_slugs_same_lookup(a: Seq<Pasta>, b: Seq<Pasta>, slug: Seq<char>)
    requires
        same_slugs(a, b),
    ensures
        lookup(a, slug) == lookup(b, slug),
{
    assert(has_slug(a, slug) == has_slug(b, slug)) by {
        if has_slug(a, slug) {
            let i = choose|i: int| 0 <= i < a.len() && a[i].slug@ == slug;
            assert(b[i].slug@ == slug);
        }
        if has_slug(b, slug) {
            let i = choose|i: int| 0 <= i < b.len() && b[i].slug@ == slug;
            assert(a[i].slug@ == slug);
        }
    }
    lemma_lookup_is_first(a, slug);
    lemma_lookup_is_first(b, slug);
    if has_slug(a, slug) {
        let i = lookup(a, slug)->0;
        let k = lookup(b, slug)->0;
        assert forall|j: int| 0 <= j < i implies b[j].slug@ != slug by {
            assert(a[j].slug@ == b[j].slug@);
        }
        assert(a[i].slug@ == b[i].slug@);
        lemma_first_with_slug_unique(b, slug, i, k);
    }
}

/// Editing the content of a pasta changes no address: after an edit, the
/// slug that addressed the pasta still addresses it, and it reads the new
/// content.
pub proof fn lemma_edit_then_lookup(old: Seq<Pasta>, new: Seq<Pasta>, i: int, c: Seq<char>, slug: Seq<char>)
    requires
        content_replaced(old, new, i, c),
        lookup(old, slug) == Some(i),
    ensures
        lookup(new, slug) == Some(i),
        new[i].content@ == c,
{
    assert forall|j: int| 0 <= j < old.len() implies #[trigger] old[j].slug@ == new[j].slug@ by {
        if j != i {
            assert(new[j] == old[j]);
        }
    }
    lemma_same_slugs_same_lookup(old, new, slug);
}

} // verus!
