//! Mapping a schema path to the name of its environment variable.
use vstd::prelude::*;
use vstd::string::StringExecFns;

verus! {

/// What `str::to_uppercase` returns for a string with the given characters.
pub uninterp spec fn upper_of(s: Seq<char>) -> Seq<char>;

/// The separator between the components of a variable name.
pub open spec fn sep() -> Seq<char> {
    seq!['_']
}

/// The name that stands for the group at `path` (group names from the root
/// down): the upper-cased prefix followed by each upper-cased segment, each
/// one after an underscore.
pub open spec fn path_name(prefix: Seq<char>, path: Seq<Seq<char>>) -> Seq<char>
    decreases path.len(),
{
    if path.len() == 0 {
        upper_of(prefix)
    } else {
        path_name(prefix, path.drop_last()) + sep() + upper_of(path.last())
    }
}

/// The environment variable of the leaf `leaf` inside the group at `path`.
pub open spec fn var_name(prefix: Seq<char>, path: Seq<Seq<char>>, leaf: Seq<char>) -> Seq<char> {
    path_name(prefix, path.push(leaf))
}

/// Relies on `str::to_uppercase`: the upper-cased text depends on the
/// characters of its input alone.
#[verifier::external_body]
fn uppercase(s: &str) -> (r: String)
    ensures
        r@ == upper_of(s@),
{
    s.to_uppercase()
}

/// The name of the root of a schema declared with `prefix`.
pub fn root_name(prefix: &str) -> (r: String)
    ensures
        r@ == path_name(prefix@, seq![]),
{
    uppercase(prefix)
}

/// Extends the name `parent` of a group by one more path component.
pub fn extend_name(parent: &String, segment: &str) -> (r: String)
    ensures
        r@ == parent@ + sep() + upper_of(segment@),
{
    let mut r = parent.clone();
    r.append("_");
    let upper = uppercase(segment);
    r.append(upper.as_str());
    proof {
        reveal_strlit("_");
    }
    r
}

/// The environment variable of the leaf `leaf` below the groups `path` of a
/// schema declared with `prefix`.
pub fn env_var_name(prefix: &str, path: &Vec<String>, leaf: &str) -> (r: String)
    ensures
        r@ == var_name(prefix@, path@.map_values(|p: String| p@), leaf@),
{
    let ghost segs = path@.map_values(|p: String| p@);
    let mut name = root_name(prefix);
    let mut i: usize = 0;
    while i < path.len()
        invariant
            i <= path.len(),
            segs == path@.map_values(|p: String| p@),
            name@ == path_name(prefix@, segs.subrange(0, i as int)),
        decreases path.len() - i,
    {
        name = extend_name(&name, path[i].as_str());
        proof {
            let next = segs.subrange(0, i + 1);
            assert(next.drop_last() == segs.subrange(0, i as int));
        }
        i = i + 1;
    }
    let r = extend_name(&name, leaf);
    proof {
        assert(segs.subrange(0, path.len() as int) == segs);
        assert(segs.push(leaf@).drop_last() == segs);
    }
    r
}

/// A leaf `c` in group `b` inside group `a` of a schema declared with prefix
/// `p` is read from the variable `P_A_B_C`: every component upper-cased,
/// joined by single underscores.
pub proof fn lemma_naming(p: Seq<char>, a: Seq<char>, b: Seq<char>, c: Seq<char>)
    ensures
        var_name(p, seq![a, b], c) == upper_of(p) + sep() + upper_of(a) + sep() + upper_of(b)
            + sep() + upper_of(c),
{
    let path = seq![a, b];
    let full = path.push(c);
    assert(full.drop_last() == path);
    assert(full.last() == c);
    assert(path.drop_last() == seq![a]);
    assert(path.last() == b);
    assert(seq![a].drop_last() == Seq::<Seq<char>>::empty());
    assert(seq![a].last() == a);
    assert(path_name(p, Seq::<Seq<char>>::empty()) == upper_of(p));
    assert(path_name(p, seq![a]) == upper_of(p) + sep() + upper_of(a));
    assert(path_name(p, path) == path_name(p, seq![a]) + sep() + upper_of(b));
}

} // verus!
