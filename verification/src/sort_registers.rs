//! Ordering the register table by address.
use vstd::prelude::*;

use crate::config::model::{registers_view, RegisterConfig, RegisterView};

verus! {

/// The registers at address `a`, in their order.
pub open spec fn with_address(s: Seq<RegisterView>, a: u16) -> Seq<RegisterView>
    decreases s.len(),
{
    if s.len() == 0 {
        Seq::empty()
    } else if s.last().address == a {
        with_address(s.drop_last(), a).push(s.last())
    } else {
        with_address(s.drop_last(), a)
    }
}

/// Addresses never decrease along `s`.
pub open spec fn sorted_by_address(s: Seq<RegisterView>) -> bool {
    forall|i: int, j: int| 0 <= i < j < s.len() ==> s[i].address <= s[j].address
}

proof fn lemma_with_address_add(s: Seq<RegisterView>, t: Seq<RegisterView>, a: u16)
    ensures
        with_address(s + t, a) == with_address(s, a) + with_address(t, a),
    decreases t.len(),
{
    if t.len() == 0 {
        assert(s + t =~= s);
        assert(with_address(s, a) + with_address(t, a) =~= with_address(s, a));
    } else {
        lemma_with_address_add(s, t.drop_last(), a);
        assert((s + t).drop_last() =~= s + t.drop_last());
        assert((s + t).last() == t.last());
        if t.last().address == a {
            assert(with_address(s, a) + with_address(t.drop_last(), a).push(t.last()) =~= (
            with_address(s, a) + with_address(t.drop_last(), a)).push(t.last()));
        }
    }
}

proof fn lemma_with_address_absent(s: Seq<RegisterView>, a: u16)
    requires
        forall|i: int| 0 <= i < s.len() ==> #[trigger] s[i].address != a,
    ensures
        with_address(s, a) == Seq::<RegisterView>::empty(),
    decreases s.len(),
{
    if s.len() > 0 {
        lemma_with_address_absent(s.drop_last(), a);
    }
}

/// The registers ordered by address. Registers at the same address keep
/// their order, so for every address the registers there are the same, in
/// the same order, before and after.
pub fn sort_by_address(regs: Vec<RegisterConfig>) -> (r: Vec<RegisterConfig>)
    ensures
        sorted_by_address(registers_view(r@)),
        forall|a: u16| #[trigger]
            with_address(registers_view(r@), a) == with_address(registers_view(regs@), a),
{
    let n = regs.len();
    let mut out: Vec<RegisterConfig> = Vec::new();
    assert(regs@.take(0) =~= Seq::<RegisterConfig>::empty());
    for i in 0..n
        invariant
            n == regs@.len(),
            sorted_by_address(registers_view(out@)),
            forall|a: u16| #[trigger]
                with_address(registers_view(out@), a) == with_address(
                    registers_view(regs@.take(i as int)),
                    a,
                ),
    {
        let x = regs[i].clone();
        let ghost xv = x@;
        let ghost old_view = registers_view(out@);
        let mut k: usize = 0;
        while k < out.len() && out[k].address <= x.address
            invariant
                k <= out@.len(),
                old_view == registers_view(out@),
                forall|j: int| 0 <= j < k ==> #[trigger] old_view[j].address <= xv.address,
                xv == x@,
            decreases out@.len() - k,
        {
            k = k + 1;
        }
        proof {
            assert forall|j: int| k <= j < old_view.len() implies #[trigger] old_view[j].address
                > xv.address by {
                assert(old_view[k as int].address > xv.address);
                if j > k {
                    assert(old_view[k as int].address <= old_view[j].address);
                }
            }
        }
        out.insert(k, x);
        proof {
            let left = old_view.subrange(0, k as int);
            let right = old_view.subrange(k as int, old_view.len() as int);
            let new_view = registers_view(out@);
            assert(new_view =~= left.push(xv) + right);
            assert(old_view =~= left + right);
            let taken = registers_view(regs@.take(i as int));
            let next = registers_view(regs@.take(i + 1));
            assert(next =~= taken.push(xv));
            assert forall|a: u16| #[trigger] with_address(new_view, a) == with_address(next, a) by {
                lemma_with_address_add(left.push(xv), right, a);
                lemma_with_address_add(left, right, a);
                assert(left.push(xv).drop_last() =~= left);
                assert(next.drop_last() =~= taken);
                assert(next.last() == xv);
                assert(with_address(old_view, a) == with_address(taken, a));
                if a == xv.address {
                    assert forall|j: int| 0 <= j < right.len() implies #[trigger] right[j].address
                        != a by {
                        assert(right[j] == old_view[k + j]);
                    }
                    lemma_with_address_absent(right, a);
                    assert(with_address(left.push(xv), a) + with_address(right, a) =~= (
                    with_address(left, a) + with_address(right, a)).push(xv));
                }
            }
            assert forall|p: int, q: int| 0 <= p < q < new_view.len() implies new_view[p].address
                <= new_view[q].address by {
                if q < k {
                    assert(new_view[p] == old_view[p] && new_view[q] == old_view[q]);
                } else if q == k {
                    assert(new_view[p] == old_view[p]);
                } else if p < k {
                    assert(new_view[p] == old_view[p] && new_view[q] == old_view[q - 1]);
                } else if p == k {
                    assert(new_view[q] == old_view[q - 1]);
                } else {
                    assert(new_view[p] == old_view[p - 1] && new_view[q] == old_view[q - 1]);
                }
            }
        }
    }
    assert(regs@.take(n as int) == regs@);
    out
}

} // verus!
