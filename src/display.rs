use vstd::prelude::*;

verus! {

/// The size of a display, in physical pixels.
#[derive(Clone, Copy, Debug, PartialEq, Eq)]
pub struct DisplaySize {
    pub width: u32,
    pub height: u32,
}

impl DisplaySize {
    /// The number of pixels.
    pub open spec fn spec_area(self) -> int {
        self.width * self.height
    }

    /// The number of pixels.
    pub fn area(&self) -> (r: u64)
        ensures
            r == self.spec_area(),
    {
        let w = self.width as u64;
        let h = self.height as u64;
        assert(w * h <= 0xFFFF_FFFFu64 * 0xFFFF_FFFFu64) by (nonlinear_arith)
            requires
                w <= 0xFFFF_FFFFu64,
                h <= 0xFFFF_FFFFu64,
        ;
        w * h
    }
}

/// The display that every surface is fitted to: the smallest by area among
/// the current display and the available ones. `None` keeps the current
/// display, which wins unless an available one is strictly smaller; among
/// available displays of equal least area the first wins.
pub fn smallest_display(current: DisplaySize, available: &Vec<DisplaySize>) -> (r: Option<usize>)
    ensures
        match r {
            None => forall|j: int|
                0 <= j < available@.len() ==> current.spec_area()
                    <= #[trigger] available@[j].spec_area(),
            Some(i) => {
                &&& i < available@.len()
                &&& available@[i as int].spec_area() < current.spec_area()
                &&& forall|j: int|
                    0 <= j < available@.len() ==> available@[i as int].spec_area()
                        <= #[trigger] available@[j].spec_area()
                &&& forall|j: int|
                    0 <= j < i ==> available@[i as int].spec_area()
                        < #[trigger] available@[j].spec_area()
            },
        },
{
    let mut best: Option<usize> = None;
    let mut best_area: u64 = current.area();
    let mut k: usize = 0;
    while k < available.len()
        invariant
            k <= available@.len(),
            match best {
                None => best_area == current.spec_area() && forall|j: int|
                    0 <= j < k ==> current.spec_area() <= #[trigger] available@[j].spec_area(),
                Some(i) => {
                    &&& i < k
                    &&& best_area == available@[i as int].spec_area()
                    &&& available@[i as int].spec_area() < current.spec_area()
                    &&& forall|j: int|
                        0 <= j < k ==> available@[i as int].spec_area()
                            <= #[trigger] available@[j].spec_area()
                    &&& forall|j: int|
                        0 <= j < i ==> available@[i as int].spec_area()
                            < #[trigger] available@[j].spec_area()
                },
            },
        decreases available@.len() - k,
    {
        let a = available[k].area();
        if a < best_area {
            best = Some(k);
            best_area = a;
        }
        k += 1;
    }
    best
}

} // verus!
