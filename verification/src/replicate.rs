use vstd::prelude::*;

verus! {

/// Values that can be copied so that the copy has the same deep view
/// as the value copied.
pub trait Replicate: DeepView + Sized {
    fn replicate(&self) -> (r: Self)
        ensures
            r.deep_view() == self.deep_view(),
    ;
}

impl Replicate for String {
    fn replicate(&self) -> (r: Self) {
        self.clone()
    }
}

impl Replicate for i32 {
    fn replicate(&self) -> (r: Self) {
        *self
    }
}

impl<T: Replicate> Replicate for Option<T> {
    fn replicate(&self) -> (r: Self) {
        match self {
            Some(x) => Some(x.replicate()),
            None => None,
        }
    }
}

impl<T: Replicate> Replicate for Vec<T> {
    fn replicate(&self) -> (r: Self) {
        let mut out: Vec<T> = Vec::new();
        let mut i: usize = 0;
        while i < self.len()
            invariant
                i <= self@.len(),
                out@.len() == i,
                forall|j: int| 0 <= j < i ==> #[trigger] out@[j].deep_view() == self@[j].deep_view(),
            decreases self@.len() - i,
        {
            out.push(self[i].replicate());
            i = i + 1;
        }
        assert(out.deep_view() =~= self.deep_view());
        out
    }
}

impl<A: Replicate, B: Replicate, C: Replicate> Replicate for (A, B, C) {
    fn replicate(&self) -> (r: Self) {
        (self.0.replicate(), self.1.replicate(), self.2.replicate())
    }
}

impl<A: Replicate, B: Replicate> Replicate for (A, B) {
    fn replicate(&self) -> (r: Self) {
        (self.0.replicate(), self.1.replicate())
    }
}

} // verus!
