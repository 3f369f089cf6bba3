use vstd::prelude::*;

verus! {

/// Character-wise string equality, decided against the views.
pub fn str_eq(a: &str, b: &str) -> (r: bool)
    ensures
        r == (a@ == b@),
{
    let na = a.unicode_len();
    let nb = b.unicode_len();
    if na != nb {
        return false;
    }
    let mut i: usize = 0;
    while i < na
        invariant
            i <= na,
            na == a@.len(),
            nb == b@.len(),
            na == nb,
            forall|j: int| 0 <= j < i ==> a@[j] == b@[j],
        decreases na - i,
    {
        if a.get_char(i) != b.get_char(i) {
            return false;
        }
        i = i + 1;
    }
    proof {
        assert(a@ =~= b@);
    }
    true
}

/// An exact copy of a byte buffer.
pub fn clone_bytes(v: &Vec<u8>) -> (r: Vec<u8>)
    ensures
        r@ == v@,
{
    let n = v.len();
    let mut out: Vec<u8> = Vec::new();
    let mut i: usize = 0;
    while i < n
        invariant
            i <= n,
            n == v@.len(),
            out@ == v@.take(i as int),
        decreases n - i,
    {
        out.push(v[i]);
        proof {
            assert(out@ =~= v@.take(i as int + 1));
        }
        i = i + 1;
    }
    proof {
        assert(v@.take(n as int) =~= v@);
    }
    out
}

/// Copies of the strings of `v` from position `start` on.
pub fn clone_strings_from(v: &Vec<String>, start: usize) -> (r: Vec<String>)
    requires
        start <= v@.len(),
    ensures
        r.deep_view() == v.deep_view().skip(start as int),
{
    let n = v.len();
    let mut out: Vec<String> = Vec::new();
    let mut i: usize = start;
    proof {
        assert(v.deep_view().len() == v@.len());
        assert(out.deep_view() =~= v.deep_view().subrange(start as int, start as int));
    }
    while i < n
        invariant
            start <= i <= n,
            n == v@.len(),
            v.deep_view().len() == n,
            out.deep_view() == v.deep_view().subrange(start as int, i as int),
        decreases n - i,
    {
        let ghost pre: Seq<Seq<char>> = out.deep_view();
        proof {
            assert(v.deep_view()[i as int] == v@[i as int]@);
        }
        out.push(v[i].clone());
        proof {
            assert(out.deep_view().len() == pre.len() + 1);
            assert(forall|t: int| 0 <= t < pre.len() ==> #[trigger] out.deep_view()[t] == pre[t]);
            assert(out.deep_view()[pre.len() as int] == v.deep_view()[i as int]);
            assert(out.deep_view() =~= v.deep_view().subrange(start as int, i as int + 1));
        }
        i = i + 1;
    }
    proof {
        assert(v.deep_view().subrange(start as int, n as int) =~= v.deep_view().skip(
            start as int,
        ));
    }
    out
}

} // verus!
