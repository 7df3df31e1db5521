use vstd::prelude::*;

use crate::color::{
    is_channel_pair, is_single_channel, spec_black, spec_cyan, spec_magenta, spec_white, spec_yellow,
    Color,
};

verus! {

/// A three-channel mask with each channel moved `k` places up (red to green,
/// green to blue, blue to red), for `k` of 1 or 2.
pub open spec fn rotated(b: u8, k: int) -> u8 {
    if k == 1 {
        ((b * 2) % 8 + b / 4) as u8
    } else {
        ((b * 4) % 8 + b / 2) as u8
    }
}

/// The colour chosen first from a seed, and the seed that remains.
pub open spec fn initial_color(seed: u64) -> (u8, u64) {
    let c = if seed % 3 == 0 {
        spec_cyan()
    } else if seed % 3 == 1 {
        spec_magenta()
    } else {
        spec_yellow()
    };
    (c, seed / 3)
}

/// The colour after a free switch: one bit of the seed picks a rotation by one
/// or by two places.
pub open spec fn switched(c: u8, seed: u64) -> (u8, u64) {
    (rotated(c, 1 + seed % 2), seed / 2)
}

/// The colour after a switch that must avoid `banned`: where the current
/// colour and `banned` share exactly one channel, the colour becomes the other
/// two channels and no seed is used; otherwise it is a free switch.
pub open spec fn switched_constrained(c: u8, seed: u64, banned: u8) -> (u8, u64) {
    let shared = c & banned;
    if is_single_channel(shared) {
        ((7 - shared) as u8, seed)
    } else {
        switched(c, seed)
    }
}

/// The raw three-way value of a position in the first half of `0..n`:
/// `floor(2.0625 + 2.875 * position / (n - 1)) - 3`.
pub open spec fn trichotomy_base(position: int, n: int) -> int {
    (33 * (n - 1) + 46 * position) / (16 * (n - 1)) - 3
}

/// The three-way split of positions `0..n`: -1 near the start, 0 in the
/// middle, 1 near the end. The first half takes `trichotomy_base`, the second
/// half mirrors it with the sign turned, and the exact middle is 0, so that
/// positions the same distance from either end cancel.
pub open spec fn trichotomy(position: int, n: int) -> int {
    if 2 * position < n - 1 {
        trichotomy_base(position, n)
    } else if 2 * position > n - 1 {
        -trichotomy_base(n - 1 - position, n)
    } else {
        0
    }
}

/// The sum of the trichotomy of `n` over the positions `lo..hi`.
pub open spec fn trichotomy_sum(n: int, lo: int, hi: int) -> int
    decreases hi - lo,
{
    if lo >= hi {
        0
    } else {
        trichotomy(lo, n) + trichotomy_sum(n, lo + 1, hi)
    }
}

/// Which part of an input edge a planned edge stands for: the whole edge, or
/// one of the three equal pieces it is split into.
#[derive(Clone, Copy, Debug, PartialEq, Eq, Structural)]
pub enum Portion {
    Whole,
    First,
    Middle,
    Last,
}

/// One edge of a coloured contour: a portion of the input edge at index
/// `source`, with its channel mask.
#[derive(Clone, Copy, Debug, PartialEq, Eq, Structural)]
pub struct PlannedEdge {
    pub source: usize,
    pub portion: Portion,
    pub color: Color,
}

impl View for PlannedEdge {
    type V = (usize, Portion, u8);

    open spec fn view(&self) -> (usize, Portion, u8) {
        (self.source, self.portion, self.color@)
    }
}

/// The planned edges as plain values.
pub open spec fn planned(v: Seq<PlannedEdge>) -> Seq<(usize, Portion, u8)> {
    v.map_values(|e: PlannedEdge| e@)
}

/// How many of the first `i` vertices are corners.
pub open spec fn corners_before(flags: Seq<bool>, i: int) -> nat
    decreases i,
{
    if i <= 0 {
        0
    } else {
        corners_before(flags, i - 1) + if flags[i - 1] { 1nat } else { 0nat }
    }
}

/// How many vertices of the contour are corners.
pub open spec fn corner_count(flags: Seq<bool>) -> nat {
    corners_before(flags, flags.len() as int)
}

/// The colour and seed of the `j`-th run between corners, for a contour with
/// `k` corners whose first run has colour `c0` and leaves seed `s0`. Each
/// later run switches away from the one before; the last also avoids `c0`.
pub open spec fn run_state(c0: u8, s0: u64, k: nat, j: nat) -> (u8, u64)
    decreases j,
{
    if j == 0 {
        (c0, s0)
    } else {
        let prev = run_state(c0, s0, k, (j - 1) as nat);
        let banned = if j == k - 1 { c0 } else { spec_black() };
        switched_constrained(prev.0, prev.1, banned)
    }
}

/// The run that edge `i` belongs to: the runs start at the corners, and the
/// edges before the first corner close the last run.
pub open spec fn run_of(flags: Seq<bool>, i: int) -> nat {
    let before = corners_before(flags, i + 1);
    if before == 0 {
        (corner_count(flags) - 1) as nat
    } else {
        (before - 1) as nat
    }
}

/// The colour for a trichotomy value: `a` at the start, white in the middle,
/// `b` at the end.
pub open spec fn third_color(a: u8, b: u8, t: int) -> u8 {
    if t < 0 {
        a
    } else if t == 0 {
        spec_white()
    } else {
        b
    }
}

/// The plan of a contour of `m` edges with one corner, at vertex `corner`.
/// With three edges or more each edge keeps its place; with two, each is cut in
/// three and the six pieces are coloured in pairs, from the corner on; one
/// edge is cut in three and each piece gets one colour.
pub open spec fn teardrop_plan(m: int, corner: int, a: u8, b: u8) -> Seq<(usize, Portion, u8)> {
    if m >= 3 {
        Seq::new(
            m as nat,
            |i: int| (i as usize, Portion::Whole, third_color(a, b, trichotomy((i - corner + m) % m, m))),
        )
    } else if m == 2 {
        let other = (1 - corner) as usize;
        let corner = corner as usize;
        seq![
            (corner, Portion::First, a),
            (corner, Portion::Middle, a),
            (corner, Portion::Last, spec_white()),
            (other, Portion::First, spec_white()),
            (other, Portion::Middle, b),
            (other, Portion::Last, b),
        ]
    } else {
        seq![(0usize, Portion::First, a), (0usize, Portion::Middle, spec_white()), (0usize, Portion::Last, b)]
    }
}

/// The edges, colour and seed after colouring a contour whose vertex `i` is a
/// corner where `flags[i]` holds (vertex `i` is where edge `i` starts), from
/// colour `c` and seed `s`.
pub open spec fn contour_plan(flags: Seq<bool>, c: u8, s: u64) -> (Seq<(usize, Portion, u8)>, u8, u64) {
    let m = flags.len();
    let k = corner_count(flags);
    if m == 0 {
        (seq![], c, s)
    } else if k == 0 {
        let (c1, s1) = switched(c, s);
        (Seq::new(m, |i: int| (i as usize, Portion::Whole, c1)), c1, s1)
    } else if k == 1 {
        let (a, s1) = switched(c, s);
        let (b, s2) = switched(a, s1);
        let corner = choose|i: int| 0 <= i < m && flags[i];
        (teardrop_plan(m as int, corner, a, b), b, s2)
    } else {
        let (c0, s0) = switched(c, s);
        let last = run_state(c0, s0, k, (k - 1) as nat);
        (Seq::new(m, |i: int| (i as usize, Portion::Whole, run_state(c0, s0, k, run_of(flags, i)).0)), last.0, last.1)
    }
}

/// Takes the lowest bit of the seed.
pub fn extract_seed_bit(seed: &mut u64) -> (r: u64)
    ensures
        r == *old(seed) % 2,
        *final(seed) == *old(seed) / 2,
{
    let s = *seed;
    let v = s & 1;
    *seed = s >> 1;
    proof {
        assert(s & 1 == s % 2) by (bit_vector);
        assert(s >> 1 == s / 2) by (bit_vector);
    }
    v
}

/// Takes the seed's remainder by three.
pub fn extract_seed_mod3(seed: &mut u64) -> (r: u64)
    ensures
        r == *old(seed) % 3,
        *final(seed) == *old(seed) / 3,
{
    let v = *seed % 3;
    *seed = *seed / 3;
    v
}

/// Picks cyan, magenta or yellow from the seed.
pub fn init_color(seed: &mut u64) -> (r: Color)
    ensures
        (r@, *final(seed)) == initial_color(*old(seed)),
{
    let v = extract_seed_mod3(seed);
    if v == 0 {
        Color::cyan()
    } else if v == 1 {
        Color::magenta()
    } else {
        Color::yellow()
    }
}

/// Rotates the colour's channels by one or two places, as one seed bit says.
pub fn switch_color(color: &mut Color, seed: &mut u64)
    ensures
        (final(color)@, *final(seed)) == switched(old(color)@, *old(seed)),
{
    let bit = extract_seed_bit(seed);
    let b = color.bits();
    if bit == 0 {
        let shifted: u8 = b << 1u8;
        let next = Color::from_bits_truncate(shifted | shifted >> 3u8);
        proof {
            assert(b < 8 ==> ((b << 1u8) | ((b << 1u8) >> 3u8)) & 7 == (b * 2) % 8 + b / 4)
                by (bit_vector);
        }
        *color = next;
    } else {
        let shifted: u8 = b << 2u8;
        let next = Color::from_bits_truncate(shifted | shifted >> 3u8);
        proof {
            assert(b < 8 ==> ((b << 2u8) | ((b << 2u8) >> 3u8)) & 7 == (b * 4) % 8 + b / 2)
                by (bit_vector);
        }
        *color = next;
    }
}

/// Switches the colour so that it does not share a single channel with
/// `banned`.
pub fn switch_color_constrained(color: &mut Color, seed: &mut u64, banned: Color)
    ensures
        (final(color)@, *final(seed)) == switched_constrained(old(color)@, *old(seed), banned@),
{
    let combined = color.intersection(banned);
    let b = combined.bits();
    if b == 1 || b == 2 || b == 4 {
        *color = combined.complement();
    } else {
        switch_color(color, seed);
    }
}

/// For each position below `n`, -1, 0 or 1 as the position is nearer the
/// start, the middle or the end. The values over all positions sum to zero
/// (`lemma_trichotomy_balanced`).
pub fn symmetrical_trichotomy(position: i32, n: i32) -> (r: i32)
    requires
        0 <= position < n,
        n >= 2,
    ensures
        r == trichotomy(position as int, n as int),
        -1 <= r <= 1,
        position == 0 ==> r == -1,
        position == n - 1 ==> r == 1,
{
    trichotomy_index(position as usize, n as usize)
}

/// `symmetrical_trichotomy` for positions and lengths of any size.
fn trichotomy_index(position: usize, n: usize) -> (r: i32)
    requires
        position < n,
        n >= 2,
    ensures
        r == trichotomy(position as int, n as int),
        -1 <= r <= 1,
        position == 0 ==> r == -1,
        position == n - 1 ==> r == 1,
{
    let twice: u128 = 2 * (position as u128);
    let d: u128 = (n - 1) as u128;
    if twice < d {
        trichotomy_base_index(position, n)
    } else if twice > d {
        -trichotomy_base_index(n - 1 - position, n)
    } else {
        0
    }
}

/// `trichotomy_base` of a position.
fn trichotomy_base_index(position: usize, n: usize) -> (r: i32)
    requires
        position < n,
        n >= 2,
    ensures
        r == trichotomy_base(position as int, n as int),
        -1 <= r <= 1,
        position == 0 ==> r == -1,
{
    let d: u128 = (n - 1) as u128;
    let num: u128 = 33 * d + 46 * (position as u128);
    let q: u128 = num / (16 * d);
    proof {
        let pi = position as int;
        let di = d as int;
        assert(0 <= pi <= di);
        assert(32 * di <= 33 * di + 46 * pi < 80 * di) by (nonlinear_arith)
            requires 0 <= pi <= di, di >= 1;
        assert(2 * (16 * di) <= 33 * di + 46 * pi);
        assert(33 * di + 46 * pi < 5 * (16 * di));
        assert(2 <= (33 * di + 46 * pi) / (16 * di) < 5) by (nonlinear_arith)
            requires 2 * (16 * di) <= 33 * di + 46 * pi < 5 * (16 * di), di >= 1;
        if pi == 0 {
            assert((33 * di) / (16 * di) == 2) by (nonlinear_arith)
                requires di >= 1;
        }
    }
    q as i32 - 3
}

/// Positions the same distance from either end have opposite trichotomy.
proof fn lemma_trichotomy_mirror(position: int, n: int)
    ensures
        trichotomy(position, n) + trichotomy(n - 1 - position, n) == 0,
{
    assert(n - 1 - (n - 1 - position) == position);
}

/// The sum over `lo..hi` is the sum over `lo..hi - 1` and the last term.
proof fn lemma_trichotomy_sum_last(n: int, lo: int, hi: int)
    requires
        lo < hi,
    ensures
        trichotomy_sum(n, lo, hi) == trichotomy_sum(n, lo, hi - 1) + trichotomy(hi - 1, n),
    decreases hi - lo,
{
    if lo < hi - 1 {
        lemma_trichotomy_sum_last(n, lo + 1, hi);
        assert(trichotomy_sum(n, lo, hi - 1) == trichotomy(lo, n) + trichotomy_sum(n, lo + 1, hi - 1));
    } else {
        assert(trichotomy_sum(n, lo + 1, hi) == 0);
        assert(trichotomy_sum(n, lo, hi - 1) == 0);
    }
}

/// The sum over positions that lie symmetrically about the middle is zero.
proof fn lemma_trichotomy_sum_symmetric(n: int, lo: int)
    requires
        0 <= lo <= n - lo,
    ensures
        trichotomy_sum(n, lo, n - lo) == 0,
    decreases n - 2 * lo,
{
    let hi = n - lo;
    if hi - lo == 1 {
        assert(trichotomy_sum(n, lo + 1, hi) == 0);
    } else if hi - lo >= 2 {
        lemma_trichotomy_sum_last(n, lo + 1, hi);
        lemma_trichotomy_sum_symmetric(n, lo + 1);
        lemma_trichotomy_mirror(lo, n);
    }
}

/// The trichotomy is balanced: its values over the positions `0..n` sum to
/// zero.
pub proof fn lemma_trichotomy_balanced(n: int)
    requires
        n >= 2,
    ensures
        trichotomy_sum(n, 0, n) == 0,
{
    lemma_trichotomy_sum_symmetric(n, 0);
}

/// Counting corners never goes down along the contour.
proof fn lemma_corners_monotone(flags: Seq<bool>, i: int, j: int)
    requires
        0 <= i <= j,
    ensures
        corners_before(flags, i) <= corners_before(flags, j),
    decreases j - i,
{
    if i < j {
        lemma_corners_monotone(flags, i, j - 1);
    }
}

/// A contour with a single corner has it at one vertex only.
proof fn lemma_single_corner(flags: Seq<bool>, first: int, x: int)
    requires
        corner_count(flags) == 1,
        0 <= first < flags.len(),
        0 <= x < flags.len(),
        flags[first],
        flags[x],
    ensures
        x == first,
{
    let m = flags.len() as int;
    if x != first {
        let (lo, hi) = if x < first { (x, first) } else { (first, x) };
        lemma_corners_monotone(flags, lo + 1, hi);
        lemma_corners_monotone(flags, hi + 1, m);
        lemma_corners_monotone(flags, 0, lo);
        assert(corners_before(flags, lo + 1) >= 1);
        assert(corners_before(flags, hi + 1) >= 2);
    }
}

/// The number of corners of the contour, and the first corner where there is
/// one.
fn count_corners(flags: &Vec<bool>) -> (r: (usize, usize))
    ensures
        r.0 == corner_count(flags@),
        r.0 > 0 ==> r.1 < flags@.len() && flags@[r.1 as int] && corners_before(flags@, r.1 as int)
            == 0,
{
    let mut k: usize = 0;
    let mut first: usize = 0;
    let m = flags.len();
    for i in 0..m
        invariant
            m == flags@.len(),
            k == corners_before(flags@, i as int),
            k <= i,
            k > 0 ==> first < i && flags@[first as int] && corners_before(flags@, first as int) == 0,
    {
        if flags[i] {
            if k == 0 {
                first = i;
            }
            k = k + 1;
        }
    }
    (k, first)
}

/// Every edge of a smooth contour in one colour.
fn plan_uniform(m: usize, color: Color) -> (r: Vec<PlannedEdge>)
    ensures
        planned(r@) == Seq::new(m as nat, |i: int| (i as usize, Portion::Whole, color@)),
{
    let mut r: Vec<PlannedEdge> = Vec::new();
    for i in 0..m
        invariant
            r@.len() == i,
            forall|j: int| 0 <= j < i ==> r@[j]@ == (j as usize, Portion::Whole, color@),
    {
        r.push(PlannedEdge { source: i, portion: Portion::Whole, color });
    }
    assert(planned(r@) =~= Seq::new(m as nat, |i: int| (i as usize, Portion::Whole, color@)));
    r
}

/// The plan of a contour with one corner, in colours `a`, white and `b`.
fn plan_teardrop(m: usize, corner: usize, a: Color, b: Color) -> (r: Vec<PlannedEdge>)
    requires
        corner < m,
    ensures
        planned(r@) == teardrop_plan(m as int, corner as int, a@, b@),
{
    let white = Color::white();
    if m >= 3 {
        let mut r: Vec<PlannedEdge> = Vec::new();
        for i in 0..m
            invariant
                m >= 3,
                corner < m,
                white@ == spec_white(),
                r@.len() == i,
                forall|j: int|
                    0 <= j < i ==> r@[j]@ == (j as usize, Portion::Whole, third_color(
                        a@,
                        b@,
                        trichotomy((j - corner + m) % (m as int), m as int),
                    )),
        {
            let rel: usize = if i >= corner { i - corner } else { i + (m - corner) };
            proof {
                let x = rel as int;
                if i >= corner {
                    vstd::arithmetic::div_mod::lemma_mod_add_multiples_vanish(x, m as int);
                }
                vstd::arithmetic::div_mod::lemma_small_mod(x as nat, m as nat);
                assert((i - corner + m) % (m as int) == x);
            }
            let t = trichotomy_index(rel, m);
            let c = if t < 0 { a } else if t == 0 { white } else { b };
            r.push(PlannedEdge { source: i, portion: Portion::Whole, color: c });
        }
        assert(planned(r@) =~= teardrop_plan(m as int, corner as int, a@, b@));
        r
    } else if m == 2 {
        let other: usize = 1 - corner;
        let r = vec![
            PlannedEdge { source: corner, portion: Portion::First, color: a },
            PlannedEdge { source: corner, portion: Portion::Middle, color: a },
            PlannedEdge { source: corner, portion: Portion::Last, color: white },
            PlannedEdge { source: other, portion: Portion::First, color: white },
            PlannedEdge { source: other, portion: Portion::Middle, color: b },
            PlannedEdge { source: other, portion: Portion::Last, color: b },
        ];
        assert(planned(r@) =~= teardrop_plan(m as int, corner as int, a@, b@));
        r
    } else {
        let r = vec![
            PlannedEdge { source: 0, portion: Portion::First, color: a },
            PlannedEdge { source: 0, portion: Portion::Middle, color: white },
            PlannedEdge { source: 0, portion: Portion::Last, color: b },
        ];
        assert(planned(r@) =~= teardrop_plan(m as int, corner as int, a@, b@));
        r
    }
}

/// The plan of a contour with `k` corners, two or more: the colours of the
/// runs between corners are drawn first, then each edge takes its run's.
fn plan_runs(flags: &Vec<bool>, k: usize, color: &mut Color, seed: &mut u64) -> (r: Vec<PlannedEdge>)
    requires
        k == corner_count(flags@),
        k >= 2,
    ensures
        ({
            let m = flags@.len();
            let first = switched(old(color)@, *old(seed));
            let last = run_state(first.0, first.1, k as nat, (k - 1) as nat);
            &&& planned(r@) == Seq::new(
                m,
                |i: int| (i as usize, Portion::Whole, run_state(first.0, first.1, k as nat, run_of(flags@, i)).0),
            )
            &&& final(color)@ == last.0
            &&& *final(seed) == last.1
        }),
{
    let m = flags.len();
    switch_color(color, seed);
    let initial = *color;
    let ghost c0 = initial@;
    let ghost s0 = *seed;
    let black = Color::black();
    let mut runs: Vec<Color> = Vec::new();
    runs.push(initial);
    for j in 1..k
        invariant
            black@ == spec_black(),
            initial@ == c0,
            runs@.len() == j,
            forall|x: int| 0 <= x < j ==> #[trigger] runs@[x]@ == run_state(c0, s0, k as nat, x as nat).0,
            (color@, *seed) == run_state(c0, s0, k as nat, (j - 1) as nat),
    {
        let banned = if j == k - 1 { initial } else { black };
        switch_color_constrained(color, seed, banned);
        runs.push(*color);
    }
    let mut r: Vec<PlannedEdge> = Vec::new();
    let mut seen: usize = 0;
    for i in 0..m
        invariant
            m == flags@.len(),
            k == corner_count(flags@),
            k >= 2,
            runs@.len() == k,
            forall|x: int| 0 <= x < k ==> #[trigger] runs@[x]@ == run_state(c0, s0, k as nat, x as nat).0,
            seen == corners_before(flags@, i as int),
            seen <= i,
            r@.len() == i,
            forall|j: int|
                0 <= j < i ==> r@[j]@ == (j as usize, Portion::Whole, run_state(c0, s0, k as nat, run_of(flags@, j)).0),
    {
        if flags[i] {
            seen = seen + 1;
        }
        proof {
            lemma_corners_monotone(flags@, i + 1, m as int);
        }
        let run: usize = if seen == 0 { k - 1 } else { seen - 1 };
        r.push(PlannedEdge { source: i, portion: Portion::Whole, color: runs[run] });
    }
    assert(planned(r@) =~= Seq::new(
        m as nat,
        |i: int| (i as usize, Portion::Whole, run_state(c0, s0, k as nat, run_of(flags@, i)).0),
    ));
    r
}

/// Colours the edges of one contour, whose vertex `i` (where edge `i` starts)
/// is a corner where `corners[i]` holds, going on from the running colour and
/// seed. A contour without corners takes one colour; one with a single corner
/// gets two colours with white between them, its edges cut in three where it
/// has fewer than three; one with more corners changes colour at each corner.
pub fn color_contour(corners: &Vec<bool>, color: &mut Color, seed: &mut u64) -> (r: Vec<PlannedEdge>)
    ensures
        ({
            let out = contour_plan(corners@, old(color)@, *old(seed));
            &&& planned(r@) == out.0
            &&& final(color)@ == out.1
            &&& *final(seed) == out.2
        }),
{
    let m = corners.len();
    if m == 0 {
        let r: Vec<PlannedEdge> = Vec::new();
        assert(planned(r@) =~= seq![]);
        return r;
    }
    let (k, first) = count_corners(corners);
    if k == 0 {
        switch_color(color, seed);
        plan_uniform(m, *color)
    } else if k == 1 {
        switch_color(color, seed);
        let a = *color;
        switch_color(color, seed);
        let b = *color;
        proof {
            let flags = corners@;
            let chosen = choose|i: int| 0 <= i < flags.len() && flags[i];
            assert(0 <= first < flags.len() && flags[first as int]);
            lemma_single_corner(flags, first as int, chosen);
        }
        plan_teardrop(m, first, a, b)
    } else {
        plan_runs(corners, k, color, seed)
    }
}

/// The corner flags of each contour as plain values.
pub open spec fn corner_flags(v: Seq<Vec<bool>>) -> Seq<Seq<bool>> {
    v.map_values(|c: Vec<bool>| c@)
}

/// The colour and seed with which contour `i` of a shape is coloured: the
/// first colour comes from the seed, and each contour goes on from where the
/// one before it left off.
pub open spec fn shape_state(flags: Seq<Seq<bool>>, seed: u64, i: nat) -> (u8, u64)
    decreases i,
{
    if i == 0 {
        initial_color(seed)
    } else {
        let st = shape_state(flags, seed, (i - 1) as nat);
        let out = contour_plan(flags[i - 1], st.0, st.1);
        (out.1, out.2)
    }
}

/// The planned edges of contour `i` of a shape.
pub open spec fn shape_plan(flags: Seq<Seq<bool>>, seed: u64, i: nat) -> Seq<(usize, Portion, u8)> {
    let st = shape_state(flags, seed, i);
    contour_plan(flags[i as int], st.0, st.1).0
}

/// Colours every contour of a shape, given for each contour which of its
/// vertices are corners. The first colour is drawn from `seed`, and the colour
/// and the rest of the seed run on from one contour to the next.
pub fn plan_edge_colors(corners: &Vec<Vec<bool>>, seed: u64) -> (r: Vec<Vec<PlannedEdge>>)
    ensures
        r@.len() == corners@.len(),
        forall|i: int|
            0 <= i < r@.len() ==> planned(#[trigger] r@[i]@) == shape_plan(
                corner_flags(corners@),
                seed,
                i as nat,
            ),
{
    let ghost flags = corner_flags(corners@);
    let mut s = seed;
    let mut color = init_color(&mut s);
    let mut r: Vec<Vec<PlannedEdge>> = Vec::new();
    for i in 0..corners.len()
        invariant
            flags == corner_flags(corners@),
            r@.len() == i,
            (color@, s) == shape_state(flags, seed, i as nat),
            forall|j: int| 0 <= j < i ==> planned(#[trigger] r@[j]@) == shape_plan(flags, seed, j as nat),
    {
        assert(corners@[i as int]@ == flags[i as int]);
        let plan = color_contour(&corners[i], &mut color, &mut s);
        r.push(plan);
    }
    r
}

/// A channel pair rotated stays a channel pair.
proof fn lemma_rotated_pair(c: u8, k: int)
    requires
        is_channel_pair(c),
        k == 1 || k == 2,
    ensures
        is_channel_pair(rotated(c, k)),
{
}

/// A switch, free or constrained, turns a channel pair into a channel pair.
proof fn lemma_switch_keeps_pair(c: u8, s: u64, banned: u8)
    requires
        is_channel_pair(c),
    ensures
        is_channel_pair(switched(c, s).0),
        is_channel_pair(switched_constrained(c, s, banned).0),
{
    lemma_rotated_pair(c, 1 + s % 2);
}

/// Every run of a contour with corners is coloured with a channel pair.
proof fn lemma_runs_are_pairs(c0: u8, s0: u64, k: nat, j: nat)
    requires
        is_channel_pair(c0),
    ensures
        is_channel_pair(run_state(c0, s0, k, j).0),
    decreases j,
{
    if j > 0 {
        lemma_runs_are_pairs(c0, s0, k, (j - 1) as nat);
        let prev = run_state(c0, s0, k, (j - 1) as nat);
        let banned = if j == k - 1 { c0 } else { spec_black() };
        lemma_switch_keeps_pair(prev.0, prev.1, banned);
    }
}

/// Colouring a contour from a channel pair (cyan, magenta or yellow) leaves
/// every edge with at least one channel, and the running colour a channel
/// pair. A contour without corners is coloured in one channel pair throughout;
/// in a contour with two corners or more every edge gets a channel pair, so
/// none is white.
pub proof fn lemma_contour_masks(flags: Seq<bool>, c: u8, s: u64)
    requires
        is_channel_pair(c),
    ensures
        ({
            let out = contour_plan(flags, c, s);
            &&& is_channel_pair(out.1)
            &&& forall|i: int| 0 <= i < out.0.len() ==> (#[trigger] out.0[i]).2 != spec_black()
            &&& corner_count(flags) == 0 ==> forall|i: int, j: int|
                0 <= i < out.0.len() && 0 <= j < out.0.len() ==> (#[trigger] out.0[i]).2 == (
                #[trigger] out.0[j]).2 && is_channel_pair(out.0[i].2)
            &&& corner_count(flags) >= 2 ==> forall|i: int|
                0 <= i < out.0.len() ==> is_channel_pair((#[trigger] out.0[i]).2)
        }),
{
    let m = flags.len();
    let k = corner_count(flags);
    let out = contour_plan(flags, c, s);
    lemma_switch_keeps_pair(c, s, spec_black());
    let (c1, s1) = switched(c, s);
    if m == 0 {
    } else if k == 0 {
    } else if k == 1 {
        lemma_switch_keeps_pair(c1, s1, spec_black());
        let corner = choose|i: int| 0 <= i < m && flags[i];
        let b = switched(c1, s1).0;
        assert forall|i: int| 0 <= i < out.0.len() implies (#[trigger] out.0[i]).2 != spec_black() by {
            if m >= 3 {
                let t = trichotomy((i - corner + m) % (m as int), m as int);
                assert(out.0[i].2 == third_color(c1, b, t));
            }
        }
    } else {
        assert forall|i: int| 0 <= i < out.0.len() implies is_channel_pair((#[trigger] out.0[i]).2) by {
            lemma_runs_are_pairs(c1, s1, k, run_of(flags, i));
        }
        lemma_runs_are_pairs(c1, s1, k, (k - 1) as nat);
    }
}

/// A contour of two edges with a single corner becomes six edges, each a third
/// of an input edge: first the three pieces of the edge that starts at the
/// corner, then those of the other, and each consecutive pair shares a colour.
pub proof fn lemma_two_edge_teardrop(flags: Seq<bool>, c: u8, s: u64)
    requires
        flags.len() == 2,
        corner_count(flags) == 1,
    ensures
        ({
            let out = contour_plan(flags, c, s).0;
            &&& out.len() == 6
            &&& forall|j: int| 0 <= j < 3 ==> (#[trigger] out[2 * j]).2 == out[2 * j + 1].2
            &&& forall|i: int| 0 <= i < 6 ==> (#[trigger] out[i]).1 != Portion::Whole
            &&& forall|i: int| 0 <= i < 3 ==> flags[(#[trigger] out[i]).0 as int]
            &&& forall|i: int| 3 <= i < 6 ==> !flags[(#[trigger] out[i]).0 as int]
        }),
{
    assert(corners_before(flags, 0) == 0);
    assert(corners_before(flags, 1) == if flags[0] { 1nat } else { 0nat });
    assert(corners_before(flags, 2) == corners_before(flags, 1) + if flags[1] { 1nat } else { 0nat });
    assert(flags[0] || flags[1]);
    if flags[0] && flags[1] {
        lemma_single_corner(flags, 0, 1);
    }
    let out = contour_plan(flags, c, s).0;
    assert forall|j: int| 0 <= j < 3 implies (#[trigger] out[2 * j]).2 == out[2 * j + 1].2 by {
        assert(j == 0 || j == 1 || j == 2);
    }
}

/// Colouring a whole shape leaves every edge with at least one channel, and
/// each contour without corners in one channel pair throughout.
pub proof fn lemma_shape_masks(flags: Seq<Seq<bool>>, seed: u64)
    ensures
        forall|i: int, j: int|
            0 <= i < flags.len() && 0 <= j < shape_plan(flags, seed, i as nat).len() ==> (
            #[trigger] shape_plan(flags, seed, i as nat)[j]).2 != spec_black(),
        forall|i: int, j: int|
            0 <= i < flags.len() && corner_count(flags[i]) == 0 && 0 <= j < shape_plan(
                flags,
                seed,
                i as nat,
            ).len() ==> (#[trigger] shape_plan(flags, seed, i as nat)[j]).2 == shape_plan(
                flags,
                seed,
                i as nat,
            )[0].2 && is_channel_pair(shape_plan(flags, seed, i as nat)[j].2),
{
    assert forall|i: int| 0 <= i < flags.len() implies is_channel_pair(
        #[trigger] shape_state(flags, seed, i as nat).0,
    ) by {
        lemma_shape_state_pair(flags, seed, i as nat);
    }
    assert forall|i: int, j: int|
        0 <= i < flags.len() && 0 <= j < shape_plan(flags, seed, i as nat).len() implies (
        #[trigger] shape_plan(flags, seed, i as nat)[j]).2 != spec_black() by {
        let st = shape_state(flags, seed, i as nat);
        lemma_contour_masks(flags[i], st.0, st.1);
    }
    assert forall|i: int, j: int|
        0 <= i < flags.len() && corner_count(flags[i]) == 0 && 0 <= j < shape_plan(
            flags,
            seed,
            i as nat,
        ).len() implies (#[trigger] shape_plan(flags, seed, i as nat)[j]).2 == shape_plan(
            flags,
            seed,
            i as nat,
        )[0].2 && is_channel_pair(shape_plan(flags, seed, i as nat)[j].2) by {
        let st = shape_state(flags, seed, i as nat);
        lemma_contour_masks(flags[i], st.0, st.1);
        let out = contour_plan(flags[i], st.0, st.1).0;
        assert(out[j].2 == out[0].2);
    }
}

/// The running colour of a shape is a channel pair before each contour.
proof fn lemma_shape_state_pair(flags: Seq<Seq<bool>>, seed: u64, i: nat)
    ensures
        is_channel_pair(shape_state(flags, seed, i).0),
    decreases i,
{
    if i > 0 {
        lemma_shape_state_pair(flags, seed, (i - 1) as nat);
        let st = shape_state(flags, seed, (i - 1) as nat);
        lemma_contour_masks(flags[i - 1], st.0, st.1);
    }
}

} // verus!
