//! From what a person pastes to the name of a sticker set.
//!
//! A set is shared as a link such as `https://t.me/addstickers/<name>`. The
//! name of the set is what follows the last `/`; a text without any `/` is
//! taken to be the name itself.

use vstd::prelude::*;

verus! {

/// The position at which the name starts: just behind the last `/`, or 0
/// where there is none.
pub open spec fn name_start(link: Seq<char>) -> int
    decreases link.len(),
{
    if link.len() == 0 {
        0
    } else if link.last() == '/' {
        link.len() as int
    } else {
        name_start(link.drop_last())
    }
}

/// The name of the set that a link points to.
pub open spec fn set_name_of(link: Seq<char>) -> Seq<char> {
    link.subrange(name_start(link), link.len() as int)
}

/// The start of the name lies within the link, with a `/` just before it
/// unless it is 0, and no `/` after it.
pub proof fn lemma_name_start(link: Seq<char>)
    ensures
        0 <= name_start(link) <= link.len(),
        name_start(link) > 0 ==> link[name_start(link) - 1] == '/',
        forall|i: int| name_start(link) <= i < link.len() ==> link[i] != '/',
    decreases link.len(),
{
    if link.len() > 0 && link.last() != '/' {
        let front = link.drop_last();
        lemma_name_start(front);
        assert forall|i: int| name_start(link) <= i < link.len() implies link[i] != '/' by {
            if i < front.len() {
                assert(link[i] == front[i]);
            }
        }
    }
}

/// What [`set_name_of`] returns, said without recursion: a link without `/`
/// is its own name; otherwise the name is the part behind the last `/`, and
/// it holds no `/` itself.
pub proof fn lemma_set_name(link: Seq<char>)
    ensures
        !set_name_of(link).contains('/'),
        !link.contains('/') ==> set_name_of(link) == link,
        link.contains('/') ==> exists|head: Seq<char>|
            link == head + seq!['/'] + set_name_of(link),
{
    lemma_name_start(link);
    let start = name_start(link);
    let name = set_name_of(link);
    assert forall|i: int| 0 <= i < name.len() implies name[i] != '/' by {
        assert(name[i] == link[start + i]);
    }
    if !link.contains('/') {
        if start > 0 {
            assert(link.contains(link[start - 1]));
        }
        assert(name =~= link);
    } else {
        assert(start > 0);
        let head = link.subrange(0, start - 1);
        assert(link =~= head + seq!['/'] + name);
    }
}

/// Extracts the name of a sticker set from a link to it.
pub fn sticker_set_name(link: &str) -> (name: String)
    ensures
        name@ == set_name_of(link@),
{
    let len = link.unicode_len();
    let mut start: usize = 0;
    let mut at: usize = 0;
    for c in chars: link.chars()
        invariant
            chars.seq() == link@,
            link@.len() == len,
            at == chars.index(),
            start <= at,
            start == name_start(link@.take(at as int)),
    {
        proof {
            let prefix = link@.take(at + 1);
            assert(prefix.drop_last() =~= link@.take(at as int));
            assert(prefix.last() == c);
        }
        at = at + 1;
        if c == '/' {
            start = at;
        }
    }
    proof {
        assert(link@.take(len as int) =~= link@);
    }
    String::from_str(link.substring_char(start, len))
}

} // verus!
