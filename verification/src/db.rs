//! What is computed from the rows that storage returns.

use crate::cache::LinkCache;
use crate::models::Link;
use vstd::prelude::*;

verus! {

/// The cache after the links were entered into it in their order: each
/// active link under its code, a later link replacing an earlier one of the
/// same code.
pub open spec fn warmed(cache: Map<Seq<char>, Seq<char>>, links: Seq<Link>) -> Map<
    Seq<char>,
    Seq<char>,
>
    decreases links.len(),
{
    if links.len() == 0 {
        cache
    } else if links.last().is_active {
        warmed(cache, links.drop_last()).insert(
            links.last().short_code@,
            links.last().original_url@,
        )
    } else {
        warmed(cache, links.drop_last())
    }
}

/// How many of the links are active.
pub open spec fn active_count(links: Seq<Link>) -> nat
    decreases links.len(),
{
    if links.len() == 0 {
        0
    } else {
        active_count(links.drop_last()) + if links.last().is_active {
            1nat
        } else {
            0nat
        }
    }
}

/// Enters every active link into the cache, and returns how many there were.
pub fn warm_cache(links: &Vec<Link>, cache: &mut LinkCache) -> (count: usize)
    ensures
        final(cache)@ == warmed(old(cache)@, links@),
        count == active_count(links@),
{
    let mut count: usize = 0;
    let mut i: usize = 0;
    assert(links@.take(0) =~= Seq::empty());
    while i < links.len()
        invariant
            i <= links@.len(),
            count <= i,
            count == active_count(links@.take(i as int)),
            cache@ == warmed(old(cache)@, links@.take(i as int)),
        decreases links.len() - i,
    {
        assert(links@.take(i + 1).drop_last() =~= links@.take(i as int));
        assert(links@.take(i + 1).last() == links@[i as int]);
        let link: &Link = &links[i];
        if link.is_active {
            cache.set(link.short_code.as_str(), link.original_url.as_str());
            count += 1;
        }
        i += 1;
    }
    assert(links@.take(links@.len() as int) =~= links@);
    count
}

/// Warming enters nothing but active links: an entry that the cache has
/// afterwards was there before, or is the code and URL of an active link.
pub proof fn lemma_warmed_entries_are_active(
    cache: Map<Seq<char>, Seq<char>>,
    links: Seq<Link>,
    code: Seq<char>,
)
    requires
        warmed(cache, links).contains_key(code),
    ensures
        (cache.contains_key(code) && cache[code] == warmed(cache, links)[code]) || exists|i: int|
            0 <= i < links.len() && (#[trigger] links[i]).is_active && links[i].short_code@ == code
                && links[i].original_url@ == warmed(cache, links)[code],
    decreases links.len(),
{
    if links.len() > 0 {
        let front = links.drop_last();
        let last = links.last();
        if last.is_active && last.short_code@ == code {
            assert(links[links.len() - 1].is_active);
        } else {
            lemma_warmed_entries_are_active(cache, front, code);
            if !(cache.contains_key(code) && cache[code] == warmed(cache, front)[code]) {
                let i = choose|i: int|
                    0 <= i < front.len() && (#[trigger] front[i]).is_active && front[i].short_code@
                        == code && front[i].original_url@ == warmed(cache, front)[code];
                assert(links[i] == front[i]);
            }
        }
    }
}

} // verus!
