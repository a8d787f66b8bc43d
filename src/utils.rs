use vstd::prelude::*;

use crate::input::text_equals;

verus! {

/// Whether a path made of `out` has a parent to go back to: it is neither empty
/// nor the root alone.
pub open spec fn has_parent(out: Seq<Seq<char>>) -> bool {
    out.len() > 0 && !(out.len() == 1 && out[0] == "/"@)
}

/// The components of a path after resolving each `..` against the component
/// before it. A `..` with nothing to go back to is kept.
pub open spec fn normalized(parts: Seq<Seq<char>>) -> Seq<Seq<char>>
    decreases parts.len(),
{
    if parts.len() == 0 {
        Seq::empty()
    } else {
        let out = normalized(parts.drop_last());
        let part = parts.last();
        if part == ".."@ && has_parent(out) {
            out.drop_last()
        } else {
            out.push(part)
        }
    }
}

pub open spec fn strings_view(v: Seq<String>) -> Seq<Seq<char>> {
    v.map_values(|s: String| s@)
}

/// Resolves `..` components: each removes the component before it, unless the
/// path so far is empty or the root `/` alone, in which case it is kept. Other
/// components are kept as they are.
pub fn normalize_path(parts: &Vec<String>) -> (r: Vec<String>)
    ensures
        strings_view(r@) == normalized(strings_view(parts@)),
{
    let mut output: Vec<String> = Vec::new();
    let mut i: usize = 0;
    while i < parts.len()
        invariant
            i <= parts@.len(),
            strings_view(output@) == normalized(strings_view(parts@.subrange(0, i as int))),
        decreases parts@.len() - i,
    {
        let part = &parts[i];
        let ghost before = strings_view(output@);
        assert(strings_view(parts@.subrange(0, i + 1)).drop_last() =~= strings_view(parts@.subrange(0, i as int)));
        assert(strings_view(parts@.subrange(0, i + 1)).last() == part@);
        let n = output.len();
        let parent = n > 0 && !(n == 1 && text_equals(output[0].as_str(), "/"));
        assert(parent == has_parent(before)) by {
            if n > 0 {
                assert(before[0] == output@[0]@);
            }
        }
        if text_equals(part.as_str(), "..") && parent {
            output.pop();
            assert(strings_view(output@) =~= before.drop_last());
        } else {
            output.push(part.clone());
            assert(strings_view(output@) =~= before.push(part@));
        }
        i = i + 1;
    }
    assert(parts@.subrange(0, i as int) =~= parts@);
    output
}

} // verus!
