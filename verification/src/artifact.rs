//! Artifacts: the output files of finished jobs, handed out once.

use crate::text::chars_of;
use vstd::prelude::*;

verus! {

/// The part of `path` after its last `separator`; all of it where it holds
/// none.
pub open spec fn base_name(path: Seq<char>, separator: char) -> Seq<char>
    decreases path.len(),
{
    if path.len() == 0 || path.last() == separator {
        Seq::empty()
    } else {
        base_name(path.drop_last(), separator).push(path.last())
    }
}

/// The base name is the part of the path after a separator that no
/// separator follows.
pub proof fn lemma_base_name(path: Seq<char>, separator: char, from: int)
    requires
        0 <= from <= path.len(),
        from > 0 ==> path[from - 1] == separator,
        forall|i: int| from <= i < path.len() ==> #[trigger] path[i] != separator,
    ensures
        base_name(path, separator) == path.skip(from),
    decreases path.len() - from,
{
    if from == path.len() {
        assert(path.skip(from) =~= Seq::empty());
    } else {
        let shorter = path.drop_last();
        assert(path.last() == path[path.len() - 1]);
        lemma_base_name(shorter, separator, from);
        assert(shorter.skip(from).push(path.last()) =~= path.skip(from));
    }
}

/// The name under which an artifact is shown: the part of its path after
/// the last separator.
pub fn file_name(path: &str, separator: char) -> (r: String)
    ensures
        r@ == base_name(path@, separator),
{
    let chars = chars_of(path);
    let mut from: usize = chars.len();
    while from > 0 && chars[from - 1] != separator
        invariant
            from <= chars.len(),
            forall|i: int| from <= i < chars.len() ==> #[trigger] chars[i] != separator,
        decreases from,
    {
        from -= 1;
    }
    proof {
        lemma_base_name(chars@, separator, from as int);
    }
    let mut out = String::new();
    let mut i: usize = from;
    assert(out@ =~= chars@.subrange(from as int, i as int));
    while i < chars.len()
        invariant
            from <= i <= chars.len(),
            out@ == chars@.subrange(from as int, i as int),
        decreases chars.len() - i,
    {
        out.push(chars[i]);
        i += 1;
        assert(out@ =~= chars@.subrange(from as int, i as int));
    }
    assert(chars@.subrange(from as int, i as int) =~= chars@.skip(from as int));
    out
}

} // verus!
