use vstd::prelude::*;
use vstd::arithmetic::div_mod::{
    lemma_add_mod_noop, lemma_add_mod_noop_right, lemma_mod_add_multiples_vanish,
    lemma_mod_pos_bound, lemma_small_mod, lemma_sub_mod_noop_right,
};

verus! {

/// The index reached from `f` by `count` steps on a ring of `n` slots
/// (Euclidean remainder, so negative steps wrap backwards).
pub open spec fn mod_plus(f: int, count: int, n: int) -> int
    recommends
        n > 0,
{
    (f + count) % n
}

/// Stepping `k` places and then `-k` places on a ring of `n` slots comes
/// back to the start.
pub proof fn lemma_mod_plus_inverse(f: int, k: int, n: int)
    requires
        n > 0,
        0 <= f < n,
    ensures
        0 <= mod_plus(f, k, n) < n,
        mod_plus(mod_plus(f, k, n), -k, n) == f,
{
    let a = (f + k) % n;
    lemma_add_mod_noop(f + k, -k, n);
    lemma_add_mod_noop_right(a, -k, n);
    lemma_small_mod(f as nat, n as nat);
    assert(f + k + -k == f);
}

/// For a fixed step count and ring size, `mod_plus` maps the slots of the
/// ring onto themselves one to one: it stays in range, no two slots land
/// on the same slot, stepping back undoes it, and every slot is reached
/// (from the slot `-k` places back).
pub proof fn lemma_mod_plus_bijection(k: int, n: int)
    requires
        n > 0,
    ensures
        forall|f: int| 0 <= f < n ==> 0 <= #[trigger] mod_plus(f, k, n) < n,
        forall|f: int| 0 <= f < n ==> mod_plus(#[trigger] mod_plus(f, k, n), -k, n) == f,
        forall|f: int, g: int|
            0 <= f < n && 0 <= g < n && #[trigger] mod_plus(f, k, n) == #[trigger] mod_plus(g, k, n)
                ==> f == g,
        forall|g: int|
            0 <= g < n ==> 0 <= #[trigger] mod_plus(g, -k, n) < n && mod_plus(mod_plus(g, -k, n), k, n)
                == g,
{
    assert forall|f: int| 0 <= f < n implies 0 <= #[trigger] mod_plus(f, k, n) < n && mod_plus(
        mod_plus(f, k, n),
        -k,
        n,
    ) == f by {
        lemma_mod_plus_inverse(f, k, n);
    }
    assert forall|g: int| 0 <= g < n implies 0 <= #[trigger] mod_plus(g, -k, n) < n && mod_plus(
        mod_plus(g, -k, n),
        k,
        n,
    ) == g by {
        lemma_mod_plus_inverse(g, -k, n);
        assert(-(-k) == k);
    }
}

/// Where `delete` leaves a focus index after one element has been removed
/// from a sequence that now has `new_len` elements.
pub open spec fn clamp_focus(focus: nat, new_len: nat) -> nat {
    if new_len == 0 {
        0
    } else if focus < new_len {
        focus
    } else {
        (new_len - 1) as nat
    }
}

/// Computes `mod_plus(f, count, n)` without overflow.
pub fn mod_plus_index(f: usize, count: isize, n: usize) -> (r: usize)
    requires
        f < n,
    ensures
        r as int == mod_plus(f as int, count as int, n as int),
        r < n,
{
    let nn = n as u128;
    if count >= 0 {
        let c = (count as u128) % nn;
        proof {
            lemma_add_mod_noop_right(f as int, count as int, n as int);
            lemma_mod_pos_bound(f as int + c as int, n as int);
        }
        ((f as u128 + c) % nn) as usize
    } else {
        let a = (-(count as i128)) as u128;
        let t = a % nn;
        proof {
            lemma_sub_mod_noop_right(f as int, a as int, n as int);
            lemma_mod_add_multiples_vanish(f as int - t as int, n as int);
            lemma_mod_pos_bound(n as int + f as int - t as int, n as int);
        }
        ((f as u128 + nn - t) % nn) as usize
    }
}

/// A vector together with a focus index. The focus is a valid index, or 0
/// when the vector is empty.
#[derive(Debug, Clone, PartialEq, Eq)]
pub struct FocusedVec<T> {
    vec: Vec<T>,
    focus: usize,
}

impl<T> View for FocusedVec<T> {
    type V = Seq<T>;

    closed spec fn view(&self) -> Seq<T> {
        self.vec@
    }
}

impl<T> FocusedVec<T> {
    /// The focus index.
    pub closed spec fn index(&self) -> nat {
        self.focus as nat
    }

    pub open spec fn wf(&self) -> bool {
        if self@.len() == 0 {
            self.index() == 0
        } else {
            self.index() < self@.len()
        }
    }

    /// The focused element, if any.
    pub open spec fn focused(&self) -> Option<T> {
        if self.index() < self@.len() {
            Some(self@[self.index() as int])
        } else {
            None
        }
    }

    pub fn empty() -> (r: Self)
        ensures
            r@ == Seq::<T>::empty(),
            r.index() == 0,
            r.wf(),
    {
        FocusedVec { vec: Vec::new(), focus: 0 }
    }

    pub fn new(vec: Vec<T>, focus: usize) -> (r: Self)
        requires
            if vec@.len() == 0 {
                focus == 0
            } else {
                focus < vec@.len()
            },
        ensures
            r@ == vec@,
            r.index() == focus,
            r.wf(),
    {
        FocusedVec { vec, focus }
    }

    pub fn as_vec(&self) -> (r: &Vec<T>)
        ensures
            r@ == self@,
    {
        &self.vec
    }

    pub fn len(&self) -> (r: usize)
        ensures
            r == self@.len(),
    {
        self.vec.len()
    }

    pub fn is_empty(&self) -> (r: bool)
        ensures
            r == (self@.len() == 0),
    {
        self.vec.len() == 0
    }

    /// Appends at the back; the focus stays where it was.
    pub fn push(&mut self, x: T)
        ensures
            final(self)@ == old(self)@.push(x),
            final(self).index() == old(self).index(),
            old(self).wf() ==> final(self).wf(),
    {
        self.vec.push(x);
    }

    pub fn focus(&self) -> (r: Option<&T>)
        ensures
            r == match self.focused() {
                Some(x) => Some(&x),
                None => None::<&T>,
            },
    {
        if self.focus < self.vec.len() {
            Some(&self.vec[self.focus])
        } else {
            None
        }
    }

    pub fn focus_mut(&mut self) -> (r: Option<&mut T>)
        ensures
            old(self).index() < old(self)@.len() <==> r is Some,
            r is None ==> *final(self) == *old(self),
            r is Some ==> *r.unwrap() == old(self)@[old(self).index() as int],
            r is Some ==> final(self)@ == old(self)@.update(
                old(self).index() as int,
                *final(r.unwrap()),
            ),
            final(self).index() == old(self).index(),
    {
        if self.focus < self.vec.len() {
            Some(&mut self.vec[self.focus])
        } else {
            None
        }
    }

    pub fn focused_index(&self) -> (r: usize)
        ensures
            r == self.index(),
    {
        self.focus
    }

    /// Direct access to the focus index. The caller restores `wf` if it
    /// relies on it.
    pub fn focused_index_mut(&mut self) -> (r: &mut usize)
        ensures
            *r == old(self).index(),
            final(self)@ == old(self)@,
            final(self).index() == *final(r),
    {
        &mut self.focus
    }

    pub fn set_focused_index(&mut self, i: usize)
        requires
            i < old(self)@.len(),
        ensures
            final(self)@ == old(self)@,
            final(self).index() == i,
            final(self).wf(),
    {
        self.focus = i;
    }

    pub fn mod_plus_focused_index(&self, count: isize) -> (r: usize)
        requires
            self.wf(),
            self@.len() > 0,
        ensures
            r as int == mod_plus(self.index() as int, count as int, self@.len() as int),
            r < self@.len(),
    {
        mod_plus_index(self.focus, count, self.vec.len())
    }

    /// Removes the element at `i` and clamps the focus into the shorter vector.
    pub fn remove(&mut self, i: usize) -> (r: T)
        requires
            i < old(self)@.len(),
        ensures
            r == old(self)@[i as int],
            final(self)@ == old(self)@.remove(i as int),
            final(self).index() == clamp_focus(old(self).index(), final(self)@.len()),
            final(self).wf(),
    {
        let r = self.vec.remove(i);
        let n = self.vec.len();
        if n == 0 {
            self.focus = 0;
        } else if self.focus >= n {
            self.focus = n - 1;
        }
        r
    }

    /// Inserts at `i`; the focus index stays the same number.
    pub fn insert(&mut self, i: usize, x: T)
        requires
            i <= old(self)@.len(),
        ensures
            final(self)@ == old(self)@.insert(i as int, x),
            final(self).index() == old(self).index(),
            old(self).wf() ==> final(self).wf(),
    {
        self.vec.insert(i, x);
    }

    /// Exchanges the elements at `i` and `j`; the focus moves to `j`.
    pub fn swap_and_focus(&mut self, i: usize, j: usize)
        requires
            i < old(self)@.len(),
            j < old(self)@.len(),
        ensures
            final(self)@ == old(self)@.update(i as int, old(self)@[j as int]).update(
                j as int,
                old(self)@[i as int],
            ),
            final(self).index() == j,
            final(self).wf(),
    {
        if i != j {
            let (lo, hi) = if i < j { (i, j) } else { (j, i) };
            let b = self.vec.remove(hi);
            let a = self.vec.remove(lo);
            self.vec.insert(lo, b);
            self.vec.insert(hi, a);
            assert(self.vec@ =~= old(self)@.update(i as int, old(self)@[j as int]).update(
                j as int,
                old(self)@[i as int],
            ));
        }
        self.focus = j;
    }
}

/// A vector that always holds at least one element, with a focus index that
/// is always valid.
#[derive(Debug, Clone, PartialEq, Eq)]
pub struct NonEmptyFocusedVec<T> {
    vec: Vec<T>,
    focus: usize,
}

impl<T> View for NonEmptyFocusedVec<T> {
    type V = Seq<T>;

    closed spec fn view(&self) -> Seq<T> {
        self.vec@
    }
}

impl<T> NonEmptyFocusedVec<T> {
    /// The focus index.
    pub closed spec fn index(&self) -> nat {
        self.focus as nat
    }

    pub open spec fn wf(&self) -> bool {
        self.index() < self@.len()
    }

    pub fn new(vec: Vec<T>, focus: usize) -> (r: Self)
        requires
            focus < vec@.len(),
        ensures
            r@ == vec@,
            r.index() == focus,
            r.wf(),
    {
        NonEmptyFocusedVec { vec, focus }
    }

    /// Rebuilds a value from its parts as they are, valid or not.
    pub(crate) fn from_parts(vec: Vec<T>, focus: usize) -> (r: Self)
        ensures
            r@ == vec@,
            r.index() == focus,
    {
        NonEmptyFocusedVec { vec, focus }
    }

    pub fn as_vec(&self) -> (r: &Vec<T>)
        ensures
            r@ == self@,
    {
        &self.vec
    }

    pub fn len(&self) -> (r: usize)
        ensures
            r == self@.len(),
    {
        self.vec.len()
    }

    /// Appends at the back; the focus stays where it was.
    pub fn push(&mut self, x: T)
        ensures
            final(self)@ == old(self)@.push(x),
            final(self).index() == old(self).index(),
            old(self).wf() ==> final(self).wf(),
    {
        self.vec.push(x);
    }

    pub fn focus(&self) -> (r: &T)
        requires
            self.wf(),
        ensures
            *r == self@[self.index() as int],
    {
        &self.vec[self.focus]
    }

    pub fn focus_mut(&mut self) -> (r: &mut T)
        requires
            old(self).wf(),
        ensures
            *r == old(self)@[old(self).index() as int],
            final(self)@ == old(self)@.update(old(self).index() as int, *final(r)),
            final(self).index() == old(self).index(),
    {
        &mut self.vec[self.focus]
    }

    /// The element at `i`, for mutation in place.
    pub fn get_mut(&mut self, i: usize) -> (r: &mut T)
        requires
            i < old(self)@.len(),
        ensures
            *r == old(self)@[i as int],
            final(self)@ == old(self)@.update(i as int, *final(r)),
            final(self).index() == old(self).index(),
    {
        &mut self.vec[i]
    }

    pub fn focused_index(&self) -> (r: usize)
        ensures
            r == self.index(),
    {
        self.focus
    }

    /// Direct access to the focus index. The caller restores `wf` if it
    /// relies on it.
    pub fn focused_index_mut(&mut self) -> (r: &mut usize)
        ensures
            *r == old(self).index(),
            final(self)@ == old(self)@,
            final(self).index() == *final(r),
    {
        &mut self.focus
    }

    pub fn set_focused_index(&mut self, i: usize)
        requires
            i < old(self)@.len(),
        ensures
            final(self)@ == old(self)@,
            final(self).index() == i,
            final(self).wf(),
    {
        self.focus = i;
    }

    pub fn mod_plus_focused_index(&self, count: isize) -> (r: usize)
        requires
            self.wf(),
        ensures
            r as int == mod_plus(self.index() as int, count as int, self@.len() as int),
            r < self@.len(),
    {
        mod_plus_index(self.focus, count, self.vec.len())
    }
}

} // verus!
