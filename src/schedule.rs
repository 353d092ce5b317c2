//! The schedule of one derivative pass: which force contribution is applied
//! to which item, and in what order.
use vstd::prelude::*;

verus! {

/// One of the four walls of the box, named by the side it stands on.
#[derive(Clone, Copy, Debug, PartialEq, Eq, Structural)]
pub enum Wall {
    Left,
    Right,
    Bottom,
    Top,
}

/// The inward normal of a wall, as integer components: the direction in
/// which the wall pushes an item that crosses it.
pub open spec fn wall_normal(w: Wall) -> (int, int) {
    match w {
        Wall::Left => (1, 0),
        Wall::Right => (-1, 0),
        Wall::Bottom => (0, 1),
        Wall::Top => (0, -1),
    }
}

/// A coordinate axis of the box.
#[derive(Clone, Copy, Debug, PartialEq, Eq, Structural)]
pub enum Dim {
    X,
    Y,
}

/// The axis across which a wall stands: its offset from the center is the
/// box's inset half-size along that axis.
pub open spec fn wall_dim(w: Wall) -> Dim {
    match w {
        Wall::Left | Wall::Right => Dim::X,
        Wall::Bottom | Wall::Top => Dim::Y,
    }
}

impl Wall {
    /// The axis across which the wall stands (see `wall_dim`).
    pub fn dim(&self) -> (r: Dim)
        ensures
            r == wall_dim(*self),
    {
        match self {
            Wall::Left | Wall::Right => Dim::X,
            Wall::Bottom | Wall::Top => Dim::Y,
        }
    }

    /// Inward normal of the wall (see `wall_normal`).
    pub fn inward_normal(&self) -> (r: (i8, i8))
        ensures
            (r.0 as int, r.1 as int) == wall_normal(*self),
    {
        match self {
            Wall::Left => (1, 0),
            Wall::Right => (-1, 0),
            Wall::Bottom => (0, 1),
            Wall::Top => (0, -1),
        }
    }
}

/// One force contribution of a derivative pass. Items are named by their
/// index in the world's item sequence.
#[derive(Clone, Copy, Debug, PartialEq, Eq, Structural)]
pub enum Step {
    /// Position and orientation derivatives take the current velocities.
    Kinematics(usize),
    /// Weight of the item, applied at its center.
    Gravity(usize),
    /// Linear and angular air resistance.
    AirResistance(usize),
    /// Contact of the item with one wall.
    WallContact(usize, Wall),
    /// Contact between two distinct items, the first index the smaller.
    Collide(usize, usize),
    /// Attraction of the dragged item toward the pointer.
    Attract(usize),
}

/// The steps applied to item `i` on its own, in order.
pub open spec fn item_steps(i: usize) -> Seq<Step> {
    seq![
        Step::Kinematics(i),
        Step::Gravity(i),
        Step::AirResistance(i),
        Step::WallContact(i, Wall::Left),
        Step::WallContact(i, Wall::Right),
        Step::WallContact(i, Wall::Bottom),
        Step::WallContact(i, Wall::Top),
    ]
}

/// The per-item steps of items `0..n`, item after item.
pub open spec fn solo_steps(n: nat) -> Seq<Step>
    decreases n,
{
    if n == 0 {
        seq![]
    } else {
        solo_steps((n - 1) as nat) + item_steps((n - 1) as usize)
    }
}

/// The contacts of item `i` with every later item `j`, `i < j < n`, by
/// increasing `j`.
pub open spec fn pair_row(i: nat, n: nat) -> Seq<Step> {
    Seq::new((if i < n { n - i - 1 } else { 0 }) as nat, |k: int| Step::Collide(i as usize, (i + 1 + k) as usize))
}

/// The rows of contacts `pair_row(i, n)` for `i < m`, in order.
pub open spec fn pair_rows(m: nat, n: nat) -> Seq<Step>
    decreases m,
{
    if m == 0 {
        seq![]
    } else {
        pair_rows((m - 1) as nat, n) + pair_row((m - 1) as nat, n)
    }
}

/// The attraction step, present only while an item is dragged.
pub open spec fn drag_steps(drag: Option<usize>) -> Seq<Step> {
    match drag {
        Some(i) => seq![Step::Attract(i)],
        None => seq![],
    }
}

/// The whole pass over `n` items: first every item alone (kinematics,
/// gravity, air, the four walls), then every unordered pair once, then the
/// drag.
pub open spec fn pass_steps(n: nat, drag: Option<usize>) -> Seq<Step> {
    solo_steps(n) + pair_rows(n, n) + drag_steps(drag)
}

/// Builds the schedule of one derivative pass over `n` items, with
/// `drag` the index of the dragged item, if any.
pub fn derivative_schedule(n: usize, drag: Option<usize>) -> (r: Vec<Step>)
    ensures
        r@ == pass_steps(n as nat, drag),
{
    let mut r: Vec<Step> = Vec::new();
    let mut i: usize = 0;
    while i < n
        invariant
            i <= n,
            r@ == solo_steps(i as nat),
        decreases n - i,
    {
        r.push(Step::Kinematics(i));
        r.push(Step::Gravity(i));
        r.push(Step::AirResistance(i));
        r.push(Step::WallContact(i, Wall::Left));
        r.push(Step::WallContact(i, Wall::Right));
        r.push(Step::WallContact(i, Wall::Bottom));
        r.push(Step::WallContact(i, Wall::Top));
        assert(r@ =~= solo_steps(i as nat) + item_steps(i));
        i = i + 1;
    }
    let ghost solo = r@;
    let mut a: usize = 0;
    while a < n
        invariant
            a <= n,
            solo == solo_steps(n as nat),
            r@ == solo + pair_rows(a as nat, n as nat),
        decreases n - a,
    {
        let ghost before = r@;
        let mut b: usize = a + 1;
        while b < n
            invariant
                a < n,
                a + 1 <= b <= n,
                r@ == before + pair_row(a as nat, n as nat).subrange(0, b - a - 1),
            decreases n - b,
        {
            r.push(Step::Collide(a, b));
            assert(pair_row(a as nat, n as nat).subrange(0, b - a) =~=
                pair_row(a as nat, n as nat).subrange(0, b - a - 1).push(Step::Collide(a, b)));
            b = b + 1;
        }
        assert(pair_row(a as nat, n as nat).subrange(0, b - a - 1) =~= pair_row(a as nat, n as nat));
        assert(solo + pair_rows((a + 1) as nat, n as nat) =~= before + pair_row(a as nat, n as nat));
        a = a + 1;
    }
    match drag {
        Some(d) => {
            r.push(Step::Attract(d));
        },
        None => {},
    }
    assert(r@ =~= pass_steps(n as nat, drag));
    r
}


/// No per-item step of the pass is a contact between two items or the
/// drag's attraction.
proof fn lemma_solo_kinds(n: nat)
    ensures
        forall|k: int| 0 <= k < solo_steps(n).len() ==> !(solo_steps(n)[k] is Collide) && !(solo_steps(n)[k] is Attract),
    decreases n,
{
    if n > 0 {
        lemma_solo_kinds((n - 1) as nat);
        let s = solo_steps(n);
        assert forall|k: int| 0 <= k < s.len() implies !(s[k] is Collide) && !(s[k] is Attract) by {
            let p = solo_steps((n - 1) as nat);
            if k >= p.len() {
                assert(s[k] == item_steps((n - 1) as usize)[k - p.len()]);
            } else {
                assert(s[k] == p[k]);
            }
        }
    }
}

/// Every entry of the first `m` rows is a contact `(a, b)` with `a < m`
/// and `a < b < n`; no entry occurs twice.
proof fn lemma_rows_shape(m: nat, n: nat)
    requires
        n <= usize::MAX,
    ensures
        forall|k: int|
            0 <= k < pair_rows(m, n).len() ==> {
                let s = #[trigger] pair_rows(m, n)[k];
                &&& s is Collide
                &&& (s->Collide_0 as int) < m
                &&& (s->Collide_0 as int) < (s->Collide_1 as int)
                &&& (s->Collide_1 as int) < n
            },
        forall|k1: int, k2: int|
            0 <= k1 < pair_rows(m, n).len() && 0 <= k2 < pair_rows(m, n).len()
                && #[trigger] pair_rows(m, n)[k1] == #[trigger] pair_rows(m, n)[k2] ==> k1 == k2,
    decreases m,
{
    if m > 0 {
        lemma_rows_shape((m - 1) as nat, n);
        let p = pair_rows((m - 1) as nat, n);
        let row = pair_row((m - 1) as nat, n);
        let s = pair_rows(m, n);
        assert(s == p + row);
        assert forall|k: int| 0 <= k < s.len() implies {
            let e = #[trigger] s[k];
            &&& e is Collide
            &&& (e->Collide_0 as int) < m
            &&& (e->Collide_0 as int) < (e->Collide_1 as int)
            &&& (e->Collide_1 as int) < n
        } by {
            if k < p.len() {
                assert(s[k] == p[k]);
            } else {
                assert(s[k] == row[k - p.len()]);
            }
        }
        assert forall|k1: int, k2: int|
            0 <= k1 < s.len() && 0 <= k2 < s.len() && #[trigger] s[k1] == #[trigger] s[k2]
            implies k1 == k2 by {
            if k1 < p.len() {
                assert(s[k1] == p[k1]);
            } else {
                assert(s[k1] == row[k1 - p.len()]);
            }
            if k2 < p.len() {
                assert(s[k2] == p[k2]);
            } else {
                assert(s[k2] == row[k2 - p.len()]);
            }
        }
    }
}

/// The first `m` rows hold the contact `(i, j)` for each `i < m`, `i < j < n`.
proof fn lemma_rows_cover(m: nat, n: nat, i: nat, j: nat)
    requires
        i < m,
        i < j < n,
        n <= usize::MAX,
    ensures
        exists|k: int| 0 <= k < pair_rows(m, n).len() && pair_rows(m, n)[k] == Step::Collide(i as usize, j as usize),
    decreases m,
{
    let p = pair_rows((m - 1) as nat, n);
    let row = pair_row((m - 1) as nat, n);
    let s = pair_rows(m, n);
    assert(s == p + row);
    if i < m - 1 {
        lemma_rows_cover((m - 1) as nat, n, i, j);
        let k = choose|k: int| 0 <= k < p.len() && p[k] == Step::Collide(i as usize, j as usize);
        assert(s[k] == p[k]);
    } else {
        let k = p.len() + (j - i - 1);
        assert(s[k] == row[j - i - 1]);
    }
}

/// Each unordered pair of distinct items is brought into contact exactly
/// once per pass: the step `Collide(i, j)` with `i < j` occurs at one
/// position of the schedule and at no other.
pub proof fn lemma_each_pair_once(n: nat, drag: Option<usize>, i: nat, j: nat)
    requires
        i < j < n,
        n <= usize::MAX,
    ensures
        exists|k: int| 0 <= k < pass_steps(n, drag).len() && pass_steps(n, drag)[k] == Step::Collide(i as usize, j as usize),
        forall|k1: int, k2: int|
            0 <= k1 < pass_steps(n, drag).len() && 0 <= k2 < pass_steps(n, drag).len()
                && pass_steps(n, drag)[k1] == Step::Collide(i as usize, j as usize)
                && pass_steps(n, drag)[k2] == Step::Collide(i as usize, j as usize) ==> k1 == k2,
{
    let solo = solo_steps(n);
    let rows = pair_rows(n, n);
    let s = pass_steps(n, drag);
    lemma_solo_kinds(n);
    lemma_rows_shape(n, n);
    lemma_rows_cover(n, n, i, j);
    let k = choose|k: int| 0 <= k < rows.len() && rows[k] == Step::Collide(i as usize, j as usize);
    assert(s[solo.len() + k] == rows[k]);
    assert forall|k1: int, k2: int|
        0 <= k1 < s.len() && 0 <= k2 < s.len()
            && s[k1] == Step::Collide(i as usize, j as usize)
            && s[k2] == Step::Collide(i as usize, j as usize) implies k1 == k2 by {
        assert(s[k1] is Collide);
        assert(s[k2] is Collide);
        assert(k1 >= solo.len()) by {
            if k1 < solo.len() {
                assert(s[k1] == solo[k1]);
            }
        }
        assert(k2 >= solo.len()) by {
            if k2 < solo.len() {
                assert(s[k2] == solo[k2]);
            }
        }
        assert(k1 < solo.len() + rows.len());
        assert(k2 < solo.len() + rows.len());
        assert(s[k1] == rows[k1 - solo.len()]);
        assert(s[k2] == rows[k2 - solo.len()]);
    }
}

/// Every contact between items in a pass names two distinct live items,
/// the smaller index first: there are no self-contacts and no contact
/// counted in both orders.
pub proof fn lemma_pairs_distinct_ordered(n: nat, drag: Option<usize>)
    requires
        n <= usize::MAX,
    ensures
        forall|k: int|
            0 <= k < pass_steps(n, drag).len() && (#[trigger] pass_steps(n, drag)[k]) is Collide ==> {
                let s = pass_steps(n, drag)[k];
                &&& (s->Collide_0 as int) < (s->Collide_1 as int)
                &&& (s->Collide_1 as int) < n
            },
{
    let solo = solo_steps(n);
    let rows = pair_rows(n, n);
    let s = pass_steps(n, drag);
    lemma_solo_kinds(n);
    lemma_rows_shape(n, n);
    assert forall|k: int| 0 <= k < s.len() && (#[trigger] s[k]) is Collide implies {
        &&& (s[k]->Collide_0 as int) < (s[k]->Collide_1 as int)
        &&& (s[k]->Collide_1 as int) < n
    } by {
        if k < solo.len() {
            assert(s[k] == solo[k]);
        } else if k < solo.len() + rows.len() {
            assert(s[k] == rows[k - solo.len()]);
        } else {
            assert(s[k] == drag_steps(drag)[k - solo.len() - rows.len()]);
        }
    }
}

/// The attraction toward the pointer is the last step of a pass and the
/// only one of its kind, present exactly when an item is dragged, and it
/// pulls that item.
pub proof fn lemma_attract_only_when_dragging(n: nat, drag: Option<usize>)
    requires
        n <= usize::MAX,
    ensures
        forall|k: int|
            0 <= k < pass_steps(n, drag).len() && (#[trigger] pass_steps(n, drag)[k]) is Attract ==> {
                &&& k == pass_steps(n, drag).len() - 1
                &&& drag == Some(pass_steps(n, drag)[k]->Attract_0)
            },
        drag is Some ==> pass_steps(n, drag).last() == Step::Attract(drag->Some_0),
{
    let solo = solo_steps(n);
    let rows = pair_rows(n, n);
    let s = pass_steps(n, drag);
    lemma_solo_kinds(n);
    lemma_rows_shape(n, n);
    assert forall|k: int| 0 <= k < s.len() && (#[trigger] s[k]) is Attract implies {
        &&& k == s.len() - 1
        &&& drag == Some(s[k]->Attract_0)
    } by {
        if k < solo.len() {
            assert(s[k] == solo[k]);
        } else if k < solo.len() + rows.len() {
            assert(s[k] == rows[k - solo.len()]);
        } else {
            assert(s[k] == drag_steps(drag)[k - solo.len() - rows.len()]);
        }
    }
}

/// A pass over no items and no drag has no steps at all, so it hands
/// nothing to the force sink.
pub proof fn lemma_empty_pass()
    ensures
        pass_steps(0, None) == Seq::<Step>::empty(),
{
    assert(pass_steps(0, None) =~= Seq::<Step>::empty());
}

/// One of the four state cells that each item exposes to an integrator.
#[derive(Clone, Copy, Debug, PartialEq, Eq, Structural)]
pub enum Cell {
    Position,
    Velocity,
    Rotation,
    AngularSpeed,
}

/// The state cells of item `i`: position, velocity, rotation, angular speed.
pub open spec fn item_cells(i: usize) -> Seq<(usize, Cell)> {
    seq![(i, Cell::Position), (i, Cell::Velocity), (i, Cell::Rotation), (i, Cell::AngularSpeed)]
}

/// The state cells of items `0..n`, item after item.
pub open spec fn cells_of(n: nat) -> Seq<(usize, Cell)>
    decreases n,
{
    if n == 0 {
        seq![]
    } else {
        cells_of((n - 1) as nat) + item_cells((n - 1) as usize)
    }
}

/// Lists, in a stable order, the state cells of `n` items that an
/// integrator reads and writes back.
pub fn state_cells(n: usize) -> (r: Vec<(usize, Cell)>)
    ensures
        r@ == cells_of(n as nat),
{
    let mut r: Vec<(usize, Cell)> = Vec::new();
    let mut i: usize = 0;
    while i < n
        invariant
            i <= n,
            r@ == cells_of(i as nat),
        decreases n - i,
    {
        r.push((i, Cell::Position));
        r.push((i, Cell::Velocity));
        r.push((i, Cell::Rotation));
        r.push((i, Cell::AngularSpeed));
        assert(r@ =~= cells_of((i + 1) as nat));
        i = i + 1;
    }
    r
}

/// The cell list holds four cells per item, and the cells at positions
/// `4 i .. 4 i + 4` are those of item `i`.
pub proof fn lemma_cells_layout(n: nat)
    requires
        n <= usize::MAX,
    ensures
        cells_of(n).len() == 4 * n,
        forall|i: int| 0 <= i < n ==> #[trigger] cells_of(n).subrange(4 * i, 4 * i + 4) == item_cells(i as usize),
    decreases n,
{
    if n > 0 {
        lemma_cells_layout((n - 1) as nat);
        let p = cells_of((n - 1) as nat);
        let s = cells_of(n);
        assert forall|i: int| 0 <= i < n implies #[trigger] s.subrange(4 * i, 4 * i + 4) == item_cells(i as usize) by {
            if i < n - 1 {
                assert(s.subrange(4 * i, 4 * i + 4) =~= p.subrange(4 * i, 4 * i + 4));
            } else {
                assert(s.subrange(4 * i, 4 * i + 4) =~= item_cells(i as usize));
            }
        }
    }
}

} // verus!
