//! The 8x8 bitmap surface and its raster-order traversals.
use vstd::prelude::*;
use crate::dot::Dot;

verus! {

/// The mask that selects row `y` in a column byte: bit `7 - y`.
pub open spec fn row_mask(y: int) -> u8 {
    (1u8 << ((7 - y) as u8)) as u8
}

/// Whether row `y` is lit in the column byte `column`.
pub open spec fn column_lit(column: u8, y: int) -> bool {
    column & row_mask(y) != 0
}

/// The dot at position `k` of the raster order: column by column from the
/// left, and within a column from row 0 (the topmost) down.
pub open spec fn raster_dot(k: int) -> Dot {
    Dot { x: (k / 8) as usize, y: (k % 8) as usize }
}

/// The position of a dot in the raster order.
pub open spec fn raster_index(d: Dot) -> int {
    d.x * 8 + d.y
}

/// Which dots a traversal of a screen yields.
#[derive(Clone, Copy, Debug, PartialEq, Eq, Structural)]
pub enum DotFilter {
    /// Every dot of the grid.
    All,
    /// The dots that are lit.
    On,
    /// The dots that are dark.
    Off,
}

/// An 8x8 on/off image, one byte per column, left to right.
/// In each column byte, bit `7 - y` holds row `y`: the most significant bit is
/// row 0, the topmost row on the display.
#[derive(Clone, Copy, Debug)]
pub struct DotScreen {
    pub columns: [u8; 8],
}

proof fn lemma_mask_bits(column: u8, y: u8, z: u8) by (bit_vector)
    requires
        y < 8,
        z < 8,
    ensures
        ((column | (1u8 << (7 - y) as u8)) & (1u8 << (7 - z) as u8) != 0) == (y == z || column
            & (1u8 << (7 - z) as u8) != 0),
        ((column & !(1u8 << (7 - y) as u8)) & (1u8 << (7 - z) as u8) != 0) == (y != z && column
            & (1u8 << (7 - z) as u8) != 0),
        (0u8 & (1u8 << (7 - z) as u8) != 0) == false,
        (255u8 & (1u8 << (7 - z) as u8) != 0) == true,
{
}

proof fn lemma_column_update(column: u8, y: int, z: int)
    requires
        0 <= y < 8,
        0 <= z < 8,
    ensures
        column_lit(column | row_mask(y), z) == (y == z || column_lit(column, z)),
        column_lit(column & !row_mask(y), z) == (y != z && column_lit(column, z)),
        !column_lit(0, z),
        column_lit(255, z),
{
    lemma_mask_bits(column, y as u8, z as u8);
}

pub(crate) proof fn lemma_raster(k: int)
    requires
        0 <= k < 64,
    ensures
        raster_dot(k).in_grid(),
        raster_index(raster_dot(k)) == k,
{
}

pub(crate) proof fn lemma_raster_inverse(d: Dot)
    requires
        d.in_grid(),
    ensures
        raster_dot(raster_index(d)) == d,
        0 <= raster_index(d) < 64,
{
}

impl View for DotScreen {
    /// The lit dots.
    type V = Set<Dot>;

    open spec fn view(&self) -> Set<Dot> {
        Set::new(|d: Dot| d.in_grid() && self.spec_is_on(d.x as int, d.y as int))
    }
}

/// The dots of a sequence come in strictly increasing raster order.
pub open spec fn in_raster_order(ds: Seq<Dot>) -> bool {
    forall|i: int, j: int| 0 <= i < j < ds.len() ==> raster_index(ds[i]) < raster_index(ds[j])
}

impl DotScreen {
    pub const HEIGHT: usize = 8;
    pub const WIDTH: usize = 8;
    pub const TOTAL_DOTS: usize = 64;

    /// Whether the dot at column `x`, row `y` is lit.
    pub open spec fn spec_is_on(self, x: int, y: int) -> bool {
        column_lit(self.columns[x], y)
    }

    /// Whether the traversal with `filter` yields the dot `d`.
    pub open spec fn selects_dot(self, filter: DotFilter, d: Dot) -> bool {
        match filter {
            DotFilter::All => true,
            DotFilter::On => self.spec_is_on(d.x as int, d.y as int),
            DotFilter::Off => !self.spec_is_on(d.x as int, d.y as int),
        }
    }

    /// The dots that the traversal with `filter` yields from raster position
    /// `k` on, in raster order.
    pub open spec fn traversal_from(self, filter: DotFilter, k: int) -> Seq<Dot>
        decreases 64 - k,
    {
        if k >= 64 {
            Seq::empty()
        } else if self.selects_dot(filter, raster_dot(k)) {
            seq![raster_dot(k)] + self.traversal_from(filter, k + 1)
        } else {
            self.traversal_from(filter, k + 1)
        }
    }

    /// Every dot of the grid, in raster order.
    pub open spec fn all_dots(self) -> Seq<Dot> {
        self.traversal_from(DotFilter::All, 0)
    }

    /// The lit dots, in raster order.
    pub open spec fn dots_on(self) -> Seq<Dot> {
        self.traversal_from(DotFilter::On, 0)
    }

    /// The dark dots, in raster order.
    pub open spec fn dots_off(self) -> Seq<Dot> {
        self.traversal_from(DotFilter::Off, 0)
    }

    /// A screen with the given column bytes.
    pub fn new(columns: [u8; 8]) -> (r: Self)
        ensures
            r.columns == columns,
    {
        DotScreen { columns }
    }

    /// A screen with every dot dark.
    pub fn new_empty() -> (r: Self)
        ensures
            forall|i: int| 0 <= i < 8 ==> r.columns[i] == 0,
            r@ == Set::<Dot>::empty(),
    {
        let r = DotScreen { columns: [0u8; 8] };
        assert forall|x: int, y: int| 0 <= x < 8 && 0 <= y < 8 implies !r.spec_is_on(x, y) by {
            lemma_column_update(0, 0, y);
        }
        assert(r@ =~= Set::<Dot>::empty());
        r
    }

    /// A screen with every dot lit.
    pub fn new_full() -> (r: Self)
        ensures
            forall|i: int| 0 <= i < 8 ==> r.columns[i] == 255,
            r@ == Set::new(|d: Dot| d.in_grid()),
    {
        let r = DotScreen { columns: [255u8; 8] };
        assert forall|x: int, y: int| 0 <= x < 8 && 0 <= y < 8 implies r.spec_is_on(x, y) by {
            lemma_column_update(255, 0, y);
        }
        assert(r@ =~= Set::new(|d: Dot| d.in_grid()));
        r
    }

    /// Lights the dot `dot`; a lit dot stays lit.
    pub fn add(&mut self, dot: &Dot)
        requires
            dot.in_grid(),
        ensures
            final(self)@ == old(self)@.insert(*dot),
    {
        let mask: u8 = 1u8 << ((7 - dot.y) as u8);
        assert(mask == row_mask(dot.y as int));
        self.columns[dot.x] = self.columns[dot.x] | mask;
        assert forall|x: int, y: int| 0 <= x < 8 && 0 <= y < 8 implies self.spec_is_on(x, y) == (
        old(self).spec_is_on(x, y) || (x == dot.x && y == dot.y)) by {
            lemma_column_update(old(self).columns[x], dot.y as int, y);
        }
        assert(self@ =~= old(self)@.insert(*dot));
    }

    /// Darkens every dot.
    pub fn clear(&mut self)
        ensures
            forall|i: int| 0 <= i < 8 ==> final(self).columns[i] == 0,
            final(self)@ == Set::<Dot>::empty(),
    {
        let mut i: usize = 0;
        while i < 8
            invariant
                i <= 8,
                forall|j: int| 0 <= j < i ==> self.columns[j] == 0,
            decreases 8 - i,
        {
            self.columns[i] = 0;
            i = i + 1;
        }
        assert forall|x: int, y: int| 0 <= x < 8 && 0 <= y < 8 implies !self.spec_is_on(x, y) by {
            lemma_column_update(0, 0, y);
        }
        assert(self@ =~= Set::<Dot>::empty());
    }

    /// Darkens the dot `dot`; a dark dot stays dark.
    pub fn remove(&mut self, dot: &Dot)
        requires
            dot.in_grid(),
        ensures
            final(self)@ == old(self)@.remove(*dot),
    {
        let mask: u8 = 1u8 << ((7 - dot.y) as u8);
        assert(mask == row_mask(dot.y as int));
        self.columns[dot.x] = self.columns[dot.x] & !mask;
        assert forall|x: int, y: int| 0 <= x < 8 && 0 <= y < 8 implies self.spec_is_on(x, y) == (
        old(self).spec_is_on(x, y) && !(x == dot.x && y == dot.y)) by {
            lemma_column_update(old(self).columns[x], dot.y as int, y);
        }
        assert(self@ =~= old(self)@.remove(*dot));
    }

    /// Whether the dot `dot` is lit.
    pub fn is_dot_on(&self, dot: &Dot) -> (r: bool)
        requires
            dot.in_grid(),
        ensures
            r == self@.contains(*dot),
    {
        self.is_on(dot.x, dot.y)
    }

    /// Whether the dot `dot` is dark.
    pub fn is_dot_off(&self, dot: &Dot) -> (r: bool)
        requires
            dot.in_grid(),
        ensures
            r == !self@.contains(*dot),
    {
        self.is_off(dot.x, dot.y)
    }

    /// Whether the dot at column `x`, row `y` is lit.
    pub fn is_on(&self, x: usize, y: usize) -> (r: bool)
        requires
            x < 8,
            y < 8,
        ensures
            r == self.spec_is_on(x as int, y as int),
    {
        (self.columns[x] & (1u8 << ((7 - y) as u8))) != 0
    }

    /// Whether the dot at column `x`, row `y` is dark.
    pub fn is_off(&self, x: usize, y: usize) -> (r: bool)
        requires
            x < 8,
            y < 8,
        ensures
            r == !self.spec_is_on(x as int, y as int),
    {
        !self.is_on(x, y)
    }

    /// Whether column `x`, row `y` lies on the grid.
    pub fn is_dot(&self, x: usize, y: usize) -> (r: bool)
        ensures
            r == (x < Self::WIDTH && y < Self::HEIGHT),
    {
        x < Self::WIDTH && y < Self::HEIGHT
    }

    /// Whether the traversal with `filter` yields the dot at column `x`, row `y`.
    fn selects(&self, filter: DotFilter, x: usize, y: usize) -> (r: bool)
        requires
            x < 8,
            y < 8,
        ensures
            r == self.selects_dot(filter, Dot { x, y }),
    {
        match filter {
            DotFilter::All => self.is_dot(x, y),
            DotFilter::On => self.is_on(x, y),
            DotFilter::Off => self.is_off(x, y),
        }
    }

    /// A fresh traversal of every dot, in raster order.
    pub fn iter(&self) -> (r: IterDotScreen)
        ensures
            r@ == self.all_dots(),
    {
        IterDotScreen::new(*self, DotFilter::All)
    }

    /// A fresh traversal of the lit dots, in raster order.
    pub fn iter_on(&self) -> (r: IterDotScreen)
        ensures
            r@ == self.dots_on(),
    {
        IterDotScreen::new(*self, DotFilter::On)
    }

    /// A fresh traversal of the dark dots, in raster order.
    pub fn iter_off(&self) -> (r: IterDotScreen)
        ensures
            r@ == self.dots_off(),
    {
        IterDotScreen::new(*self, DotFilter::Off)
    }
}

/// A lazy traversal of a screen's dots in raster order; it yields each dot
/// that its filter selects, once.
pub struct IterDotScreen {
    screen: DotScreen,
    filter: DotFilter,
    index: usize,
}

impl View for IterDotScreen {
    /// The dots still to come.
    type V = Seq<Dot>;

    closed spec fn view(&self) -> Seq<Dot> {
        self.screen.traversal_from(self.filter, self.index as int)
    }
}

impl IterDotScreen {
    fn new(screen: DotScreen, filter: DotFilter) -> (r: Self)
        ensures
            r@ == screen.traversal_from(filter, 0),
    {
        IterDotScreen { screen, filter, index: 0 }
    }

    /// The next dot of the traversal, or `None` when it is done.
    pub fn next(&mut self) -> (r: Option<Dot>)
        ensures
            old(self)@.len() == 0 ==> r is None && final(self)@ == old(self)@,
            old(self)@.len() > 0 ==> r == Some(old(self)@[0]) && final(self)@
                == old(self)@.drop_first(),
    {
        let mut k: usize = self.index;
        while k < 64
            invariant
                *self == *old(self),
                self.index <= k,
                self.screen.traversal_from(self.filter, self.index as int)
                    == self.screen.traversal_from(self.filter, k as int),
            decreases 64 - k,
        {
            let x = k / 8;
            let y = k % 8;
            if self.screen.selects(self.filter, x, y) {
                let ghost rest = self.screen.traversal_from(self.filter, k + 1);
                assert((seq![raster_dot(k as int)] + rest).drop_first() =~= rest);
                self.index = k + 1;
                return Some(Dot { x, y });
            }
            k = k + 1;
        }
        None
    }

    /// The dot `n` places further on (`nth(0)` is the next one), or `None`
    /// when fewer remain. The traversal goes on after that dot.
    pub fn nth(&mut self, n: usize) -> (r: Option<Dot>)
        ensures
            n < old(self)@.len() ==> r == Some(old(self)@[n as int]) && final(self)@ == old(
                self,
            )@.subrange(n + 1, old(self)@.len() as int),
            n >= old(self)@.len() ==> r is None && final(self)@.len() == 0,
    {
        let ghost start = self@;
        let mut i: usize = 0;
        loop
            invariant
                i <= n,
                i <= start.len(),
                start == old(self)@,
                self@ == start.subrange(i as int, start.len() as int),
            decreases start.len() - i,
        {
            match self.next() {
                None => {
                    return None;
                },
                Some(d) => {
                    if i == n {
                        return Some(d);
                    }
                    i = i + 1;
                },
            }
        }
    }
}

/// Setting a dot makes it lit and clearing it makes it dark, and changes of
/// two different dots commute: their order does not matter.
pub proof fn lemma_set_clear_round_trip(s: DotScreen, p: Dot, q: Dot)
    requires
        p.in_grid(),
        q.in_grid(),
    ensures
        s@.insert(p).contains(p),
        !s@.remove(p).contains(p),
        p != q ==> s@.insert(p).insert(q) == s@.insert(q).insert(p),
        p != q ==> s@.remove(p).remove(q) == s@.remove(q).remove(p),
        p != q ==> s@.insert(p).remove(q) == s@.remove(q).insert(p),
        p != q ==> (s@.insert(p).contains(q) == s@.contains(q) && s@.remove(p).contains(q)
            == s@.contains(q)),
{
    if p != q {
        assert(s@.insert(p).insert(q) =~= s@.insert(q).insert(p));
        assert(s@.remove(p).remove(q) =~= s@.remove(q).remove(p));
        assert(s@.insert(p).remove(q) =~= s@.remove(q).insert(p));
    }
}

proof fn lemma_traversal_from(s: DotScreen, f: DotFilter, k: int)
    requires
        0 <= k <= 64,
    ensures
        forall|d: Dot|
            s.traversal_from(f, k).contains(d) <==> (d.in_grid() && k <= raster_index(d)
                && s.selects_dot(f, d)),
        forall|i: int|
            0 <= i < s.traversal_from(f, k).len() ==> k <= raster_index(
                #[trigger] s.traversal_from(f, k)[i],
            ) < 64,
        in_raster_order(s.traversal_from(f, k)),
    decreases 64 - k,
{
    if k < 64 {
        lemma_traversal_from(s, f, k + 1);
        lemma_raster(k);
        let rest = s.traversal_from(f, k + 1);
        let t = s.traversal_from(f, k);
        if s.selects_dot(f, raster_dot(k)) {
            assert(t == seq![raster_dot(k)] + rest);
            assert forall|i: int| 0 < i < t.len() implies t[i] == rest[i - 1] by {}
        } else {
            assert(t == rest);
        }
        assert forall|d: Dot| t.contains(d) <==> (d.in_grid() && k <= raster_index(d)
            && s.selects_dot(f, d)) by {
            if d.in_grid() {
                lemma_raster_inverse(d);
            }
            if t.contains(d) {
                let i = choose|i: int| 0 <= i < t.len() && t[i] == d;
                if s.selects_dot(f, raster_dot(k)) && i > 0 {
                    assert(rest[i - 1] == d);
                }
            }
            if d.in_grid() && k <= raster_index(d) && s.selects_dot(f, d) {
                if raster_index(d) == k {
                    assert(t[0] == d);
                } else {
                    assert(rest.contains(d));
                    let i = choose|i: int| 0 <= i < rest.len() && rest[i] == d;
                    if s.selects_dot(f, raster_dot(k)) {
                        assert(t[i + 1] == d);
                    }
                }
            }
        }
    }
}

/// The full traversal from raster position `k` is every later position, in order.
pub(crate) proof fn lemma_all_from(s: DotScreen, k: int)
    requires
        0 <= k <= 64,
    ensures
        s.traversal_from(DotFilter::All, k).len() == 64 - k,
        forall|i: int|
            0 <= i < 64 - k ==> #[trigger] s.traversal_from(DotFilter::All, k)[i] == raster_dot(
                k + i,
            ),
    decreases 64 - k,
{
    if k < 64 {
        lemma_all_from(s, k + 1);
        let t = s.traversal_from(DotFilter::All, k);
        let rest = s.traversal_from(DotFilter::All, k + 1);
        assert(t == seq![raster_dot(k)] + rest);
        assert forall|i: int| 0 <= i < 64 - k implies #[trigger] t[i] == raster_dot(k + i) by {
            if i > 0 {
                assert(t[i] == rest[i - 1]);
            }
        }
    }
}

proof fn lemma_traversal_len(s: DotScreen, k: int)
    requires
        0 <= k <= 64,
    ensures
        s.traversal_from(DotFilter::On, k).len() + s.traversal_from(DotFilter::Off, k).len() == 64
            - k,
        s.traversal_from(DotFilter::All, k).len() == 64 - k,
    decreases 64 - k,
{
    if k < 64 {
        lemma_traversal_len(s, k + 1);
    }
}

proof fn lemma_increasing_no_duplicates(ds: Seq<Dot>)
    requires
        in_raster_order(ds),
    ensures
        ds.no_duplicates(),
{
    assert forall|i: int, j: int| 0 <= i < ds.len() && 0 <= j < ds.len() && i != j implies ds[i]
        != ds[j] by {
        if i < j {
            assert(raster_index(ds[i]) < raster_index(ds[j]));
        } else {
            assert(raster_index(ds[j]) < raster_index(ds[i]));
        }
    }
}

/// The traversals of a screen: `iter_on` yields exactly the lit dots,
/// `iter_off` exactly the dark ones and `iter` every dot of the grid, each
/// once and in raster order. The lit and the dark dots split the grid.
pub proof fn lemma_traversals(s: DotScreen)
    ensures
        forall|d: Dot| s.dots_on().contains(d) <==> s@.contains(d),
        forall|d: Dot| s.dots_off().contains(d) <==> (d.in_grid() && !s@.contains(d)),
        forall|d: Dot| s.all_dots().contains(d) <==> d.in_grid(),
        s.dots_on().no_duplicates() && s.dots_off().no_duplicates() && s.all_dots().no_duplicates(),
        in_raster_order(s.dots_on()) && in_raster_order(s.dots_off()) && in_raster_order(
            s.all_dots(),
        ),
        s.dots_on().to_set() + s.dots_off().to_set() == s.all_dots().to_set(),
        s.dots_on().to_set().disjoint(s.dots_off().to_set()),
        s.dots_on().len() + s.dots_off().len() == DotScreen::TOTAL_DOTS,
        s.all_dots().len() == DotScreen::TOTAL_DOTS,
{
    lemma_traversal_from(s, DotFilter::On, 0);
    lemma_traversal_from(s, DotFilter::Off, 0);
    lemma_traversal_from(s, DotFilter::All, 0);
    lemma_traversal_len(s, 0);
    lemma_increasing_no_duplicates(s.dots_on());
    lemma_increasing_no_duplicates(s.dots_off());
    lemma_increasing_no_duplicates(s.all_dots());
    assert forall|d: Dot| s.dots_on().contains(d) <==> s@.contains(d) by {
        if d.in_grid() {
            lemma_raster_inverse(d);
        }
        assert(s.dots_on().contains(d) == (d.in_grid() && s.selects_dot(DotFilter::On, d)));
    }
    assert forall|d: Dot| s.dots_off().contains(d) <==> (d.in_grid() && !s@.contains(d)) by {
        if d.in_grid() {
            lemma_raster_inverse(d);
        }
        assert(s.dots_off().contains(d) == (d.in_grid() && s.selects_dot(DotFilter::Off, d)));
    }
    assert forall|d: Dot| s.all_dots().contains(d) <==> d.in_grid() by {
        if d.in_grid() {
            lemma_raster_inverse(d);
        }
        assert(s.all_dots().contains(d) == (d.in_grid() && s.selects_dot(DotFilter::All, d)));
    }
    assert forall|d: Dot| (s.dots_on().to_set() + s.dots_off().to_set()).contains(d)
        == s.all_dots().to_set().contains(d) by {
        if d.in_grid() {
            lemma_raster_inverse(d);
        }
        assert(s.dots_on().contains(d) == (d.in_grid() && s.selects_dot(DotFilter::On, d)));
        assert(s.dots_off().contains(d) == (d.in_grid() && s.selects_dot(DotFilter::Off, d)));
    }
    assert(s.dots_on().to_set() + s.dots_off().to_set() =~= s.all_dots().to_set());
    assert forall|d: Dot| s.dots_on().to_set().contains(d) implies !s.dots_off().to_set().contains(
        d,
    ) by {
        if d.in_grid() {
            lemma_raster_inverse(d);
        }
        assert(s.dots_on().contains(d) == (d.in_grid() && s.selects_dot(DotFilter::On, d)));
        assert(s.dots_off().contains(d) == (d.in_grid() && s.selects_dot(DotFilter::Off, d)));
    }
}

} // verus!
