//! Streaming estimate of the 0.95 quantile of a stream of durations, in
//! constant memory, with five markers that are moved by piecewise-parabolic
//! interpolation.

use vstd::prelude::*;

verus! {

/// The number of observations that the estimator counts; it ignores what
/// comes after them. Up to this number the arithmetic of a marker's move
/// fits in 128 bits.
pub const P2_CAPACITY: u64 = 0x8000_0000;

/// `s` with `x` put in before the first element from the right that is not
/// larger than `x`: where `s` ascends, so does the result.
pub open spec fn insert_sorted(s: Seq<u64>, x: u64) -> Seq<u64>
    decreases s.len(),
{
    if s.len() == 0 {
        seq![x]
    } else if s.last() <= x {
        s.push(x)
    } else {
        insert_sorted(s.drop_last(), x).push(s.last())
    }
}

/// The elements of `s` in ascending order.
pub open spec fn sorted(s: Seq<u64>) -> Seq<u64>
    decreases s.len(),
{
    if s.len() == 0 {
        Seq::empty()
    } else {
        insert_sorted(sorted(s.drop_last()), s.last())
    }
}

/// No element of `s` is larger than a later one.
pub open spec fn ascending(s: Seq<u64>) -> bool {
    forall|i: int, j: int| 0 <= i <= j < s.len() ==> s[i] <= s[j]
}

/// The index at which `insert_sorted` puts `x` into `s`.
pub open spec fn rank_of(s: Seq<u64>, x: u64) -> int
    decreases s.len(),
{
    if s.len() == 0 || s.last() <= x {
        s.len() as int
    } else {
        rank_of(s.drop_last(), x)
    }
}

/// `insert_sorted` is an insertion at `rank_of`.
pub proof fn lemma_insert_sorted_at_rank(s: Seq<u64>, x: u64)
    ensures
        0 <= rank_of(s, x) <= s.len(),
        insert_sorted(s, x) == s.insert(rank_of(s, x), x),
    decreases s.len(),
{
    if s.len() > 0 && s.last() > x {
        lemma_insert_sorted_at_rank(s.drop_last(), x);
    }
}

/// Inserting into an ascending sequence keeps it ascending, makes it one
/// longer, and adds exactly `x` to what it holds.
pub proof fn lemma_insert_sorted(s: Seq<u64>, x: u64)
    requires
        ascending(s),
    ensures
        ascending(insert_sorted(s, x)),
        insert_sorted(s, x).len() == s.len() + 1,
        insert_sorted(s, x).to_multiset() == s.to_multiset().insert(x),
    decreases s.len(),
{
    broadcast use vstd::seq_lib::group_to_multiset_ensures;

    if s.len() > 0 && s.last() > x {
        let head = s.drop_last();
        lemma_insert_sorted(head, x);
        lemma_insert_sorted_at_rank(head, x);
        assert(s =~= head.push(s.last()));
    }
}

/// `sorted(s)` is the ascending arrangement of what `s` holds.
pub proof fn lemma_sorted(s: Seq<u64>)
    ensures
        ascending(sorted(s)),
        sorted(s).len() == s.len(),
        sorted(s).to_multiset() == s.to_multiset(),
    decreases s.len(),
{
    broadcast use vstd::seq_lib::group_to_multiset_ensures;

    if s.len() > 0 {
        lemma_sorted(s.drop_last());
        lemma_insert_sorted(sorted(s.drop_last()), s.last());
        assert(s =~= s.drop_last().push(s.last()));
    }
}

/// A copy of `v` in ascending order.
pub fn sorted_copy(v: &Vec<u64>) -> (r: Vec<u64>)
    ensures
        r@ == sorted(v@),
{
    let mut r: Vec<u64> = Vec::new();
    let mut i: usize = 0;
    while i < v.len()
        invariant
            i <= v.len(),
            r@ == sorted(v@.take(i as int)),
        decreases v.len() - i,
    {
        let x = v[i];
        let mut j: usize = r.len();
        assert(r@.take(j as int) =~= r@);
        while j > 0 && r[j - 1] > x
            invariant
                j <= r.len(),
                rank_of(r@, x) == rank_of(r@.take(j as int), x),
            decreases j,
        {
            assert(r@.take(j as int).drop_last() =~= r@.take(j as int - 1));
            j -= 1;
        }
        proof {
            lemma_insert_sorted_at_rank(r@, x);
            assert(v@.take(i as int + 1).drop_last() =~= v@.take(i as int));
        }
        r.insert(j, x);
        i += 1;
    }
    assert(v@.take(i as int) =~= v@);
    r
}

/// The 0.95 quantile of the ascending sequence `s` by linear interpolation
/// at rank `0.95 * (s.len() - 1)`; the interpolated part is cut to a whole
/// number.
pub open spec fn interpolate(s: Seq<u64>) -> int {
    let rank20 = 19 * (s.len() - 1);
    let lo = rank20 / 20;
    let part = rank20 % 20;
    if part == 0 {
        s[lo] as int
    } else {
        s[lo] + ((s[lo + 1] - s[lo]) * part) / 20
    }
}

/// The interpolation reads inside the sequence and stays between the two
/// elements that it reads.
pub proof fn lemma_interpolate_bounds(s: Seq<u64>)
    requires
        s.len() > 0,
        ascending(s),
    ensures
        s[0] <= interpolate(s) <= s.last(),
{
    let rank20 = 19 * (s.len() - 1);
    let lo = rank20 / 20;
    let part = rank20 % 20;
    if part != 0 {
        let d = s[lo + 1] - s[lo];
        assert(0 <= (d * part) / 20 <= d) by (nonlinear_arith)
            requires
                0 <= d,
                0 < part < 20,
        ;
    }
}

/// Five marker heights `q`, their positions `n` in the ordered stream, and
/// the positions `np` that they should have, in fortieths.
pub ghost struct Markers {
    pub q: Seq<int>,
    pub n: Seq<int>,
    pub np: Seq<int>,
}

/// The desired position of marker `i` after five observations, in fortieths:
/// `1`, `1 + 2p`, `1 + 4p`, `3 + 2p`, `5` with `p = 0.95`.
pub open spec fn start(i: int) -> int {
    if i == 0 {
        40
    } else if i == 1 {
        116
    } else if i == 2 {
        192
    } else if i == 3 {
        196
    } else {
        200
    }
}

/// By how much the desired position of marker `i` grows with each
/// observation, in fortieths: `0`, `p / 2`, `p`, `(1 + p) / 2`, `1` with
/// `p = 0.95`.
pub open spec fn rate(i: int) -> int {
    if i == 0 {
        0
    } else if i == 1 {
        19
    } else if i == 2 {
        38
    } else if i == 3 {
        39
    } else {
        40
    }
}

/// The markers right after the fifth observation: the five ordered
/// observations `s` at positions 1 to 5.
pub open spec fn bootstrap(s: Seq<u64>) -> Markers {
    Markers {
        q: Seq::new(5, |i: int| s[i] as int),
        n: Seq::new(5, |i: int| i + 1),
        np: Seq::new(5, |i: int| start(i)),
    }
}

/// The interval between markers into which `x` falls: marker `cell` is the
/// last one that does not move to the right.
pub open spec fn cell(m: Markers, x: int) -> int {
    if x < m.q[1] {
        0
    } else if x < m.q[2] {
        1
    } else if x < m.q[3] {
        2
    } else {
        3
    }
}

/// The markers after `x` has been counted: the outer heights stretch to
/// hold `x`, every marker to the right of its cell moves one position on, and
/// every desired position grows by its rate.
pub open spec fn place(m: Markers, x: int) -> Markers {
    let k = cell(m, x);
    Markers {
        q: m.q.update(0, if x < m.q[0] { x } else { m.q[0] }).update(
            4,
            if x > m.q[4] { x } else { m.q[4] },
        ),
        n: Seq::new(5, |i: int| if i > k { m.n[i] + 1 } else { m.n[i] }),
        np: Seq::new(5, |i: int| m.np[i] + rate(i)),
    }
}

/// The height that the parabola through marker `i` and its two neighbours
/// gives one position further in direction `s`; the offset from the present
/// height is cut to a whole number.
pub open spec fn parabolic(m: Markers, i: int, s: int) -> int {
    let a = m.n[i] - m.n[i - 1];
    let c = m.n[i + 1] - m.n[i];
    let lower = m.q[i] - m.q[i - 1];
    let upper = m.q[i + 1] - m.q[i];
    m.q[i] + s * (((a + s) * upper * a + (c - s) * lower * c) / (a * c * (a + c)))
}

/// The height one position further in direction `s` on the straight line to
/// the neighbour on that side.
pub open spec fn linear(m: Markers, i: int, s: int) -> int {
    if s > 0 {
        m.q[i] + (m.q[i + 1] - m.q[i]) / (m.n[i + 1] - m.n[i])
    } else {
        m.q[i] - (m.q[i] - m.q[i - 1]) / (m.n[i] - m.n[i - 1])
    }
}

/// Marker `i` moved by one position in direction `s`: to the parabolic
/// height where that lies strictly between the neighbouring heights, else to
/// the linear one.
pub open spec fn moved(m: Markers, i: int, s: int) -> Markers {
    let p = parabolic(m, i, s);
    let height = if m.q[i - 1] < p < m.q[i + 1] {
        p
    } else {
        linear(m, i, s)
    };
    Markers { q: m.q.update(i, height), n: m.n.update(i, m.n[i] + s), np: m.np }
}

/// Marker `i` moved towards its desired position where it is off by one
/// position or more and the neighbour on that side leaves room.
pub open spec fn adjusted(m: Markers, i: int) -> Markers {
    let d = m.np[i] - 40 * m.n[i];
    if d >= 40 && m.n[i + 1] - m.n[i] > 1 {
        moved(m, i, 1)
    } else if d <= -40 && m.n[i - 1] - m.n[i] < -1 {
        moved(m, i, -1)
    } else {
        m
    }
}

/// The markers after one more observation `x`.
pub open spec fn step(m: Markers, x: int) -> Markers {
    adjusted(adjusted(adjusted(place(m, x), 1), 2), 3)
}

/// The markers after the observations `s`, of which there are five or more.
pub open spec fn markers(s: Seq<u64>) -> Markers
    decreases s.len(),
{
    if s.len() <= 5 {
        bootstrap(sorted(s))
    } else {
        step(markers(s.drop_last()), s.last() as int)
    }
}

/// Heights ascend within `u64`, positions ascend strictly from 1.
pub open spec fn ordered(m: Markers) -> bool {
    &&& m.q.len() == 5
    &&& m.n.len() == 5
    &&& m.np.len() == 5
    &&& 0 <= m.q[0] <= m.q[1] <= m.q[2] <= m.q[3] <= m.q[4] <= u64::MAX
    &&& 1 == m.n[0] < m.n[1] < m.n[2] < m.n[3] < m.n[4] <= P2_CAPACITY
}

/// `ordered`, and each desired position is where its rate has taken it
/// since the fifth observation.
pub open spec fn markers_wf(m: Markers) -> bool {
    &&& ordered(m)
    &&& m.np[0] == 40
    &&& m.np[1] == 116 + 19 * (m.n[4] - 5)
    &&& m.np[2] == 192 + 38 * (m.n[4] - 5)
    &&& m.np[3] == 196 + 39 * (m.n[4] - 5)
    &&& m.np[4] == 200 + 40 * (m.n[4] - 5)
}

/// Marker `i` can move in direction `s`.
pub open spec fn adjustable(m: Markers, i: int, s: int) -> bool {
    &&& ordered(m)
    &&& 1 <= i <= 3
    &&& s == 1 || s == -1
    &&& s == 1 ==> m.n[i + 1] - m.n[i] > 1
    &&& s == -1 ==> m.n[i] - m.n[i - 1] > 1
}

proof fn lemma_div_le(x: int, d: int)
    by (nonlinear_arith)
    requires
        0 <= x,
        1 <= d,
    ensures
        0 <= x / d <= x,
{
}

/// A move keeps the markers in order and leaves the outer ones alone.
pub proof fn lemma_moved_ordered(m: Markers, i: int, s: int)
    requires
        adjustable(m, i, s),
    ensures
        ordered(moved(m, i, s)),
        moved(m, i, s).q[0] == m.q[0],
        moved(m, i, s).q[4] == m.q[4],
        moved(m, i, s).n[4] == m.n[4],
        moved(m, i, s).np == m.np,
{
    lemma_div_le(m.q[i + 1] - m.q[i], m.n[i + 1] - m.n[i]);
    lemma_div_le(m.q[i] - m.q[i - 1], m.n[i] - m.n[i - 1]);
}

/// An adjustment keeps the markers well formed and leaves the outer ones
/// alone.
pub proof fn lemma_adjusted_wf(m: Markers, i: int)
    requires
        markers_wf(m),
        1 <= i <= 3,
    ensures
        markers_wf(adjusted(m, i)),
        adjusted(m, i).q[0] == m.q[0],
        adjusted(m, i).q[4] == m.q[4],
        adjusted(m, i).n[4] == m.n[4],
{
    let d = m.np[i] - 40 * m.n[i];
    if d >= 40 && m.n[i + 1] - m.n[i] > 1 {
        lemma_moved_ordered(m, i, 1);
    } else if d <= -40 && m.n[i - 1] - m.n[i] < -1 {
        lemma_moved_ordered(m, i, -1);
    }
}

/// Counting an observation keeps the markers well formed, and so does each
/// adjustment after it; the outer heights are the least and the greatest
/// observation so far.
pub proof fn lemma_step_wf(m: Markers, x: int)
    requires
        markers_wf(m),
        m.n[4] < P2_CAPACITY,
        0 <= x <= u64::MAX,
    ensures
        markers_wf(place(m, x)),
        markers_wf(step(m, x)),
        step(m, x).n[4] == m.n[4] + 1,
        step(m, x).q[0] == (if x < m.q[0] { x } else { m.q[0] }),
        step(m, x).q[4] == (if x > m.q[4] { x } else { m.q[4] }),
{
    let m0 = place(m, x);
    lemma_adjusted_wf(m0, 1);
    let m1 = adjusted(m0, 1);
    lemma_adjusted_wf(m1, 2);
    let m2 = adjusted(m1, 2);
    lemma_adjusted_wf(m2, 3);
}

/// What the estimator reports after the observations `s`: nothing before
/// the first; the interpolated quantile of the ordered observations while
/// there are fewer than five; from then on the height of the middle marker.
pub open spec fn estimate_of(s: Seq<u64>) -> Option<u64> {
    if s.len() == 0 {
        None
    } else if s.len() < 5 {
        Some(interpolate(sorted(s)) as u64)
    } else {
        Some(markers(s).q[2] as u64)
    }
}

/// The five values of an array as integers.
pub open spec fn lift(a: [u64; 5]) -> Seq<int> {
    Seq::new(5, |i: int| a[i] as int)
}

proof fn lemma_product_bound(x: int, y: int, z: int)
    by (nonlinear_arith)
    requires
        0 <= x <= 0x8000_0000,
        0 <= y <= 0xffff_ffff_ffff_ffff,
        0 <= z <= 0x8000_0000,
    ensures
        0 <= x * y <= 0x8000_0000 * 0xffff_ffff_ffff_ffff,
        0 <= x * y * z <= 0x8000_0000 * 0xffff_ffff_ffff_ffff * 0x8000_0000,
{
}

proof fn lemma_span_bound(a: int, c: int)
    by (nonlinear_arith)
    requires
        1 <= a,
        1 <= c,
        a + c <= 0x8000_0000,
    ensures
        1 <= a * c <= 0x8000_0000 * 0x8000_0000,
        1 <= a * c * (a + c) <= 0x8000_0000 * 0x8000_0000 * 0x8000_0000,
{
}

/// Estimator of the 0.95 quantile of the values it has observed.
pub struct P2Quantile {
    initial: Vec<u64>,
    n: [u64; 5],
    np: [u64; 5],
    dn: [u64; 5],
    q: [u64; 5],
    count: u64,
    seen: Ghost<Seq<u64>>,
}

impl P2Quantile {
    /// The observations that have been counted, in the order they came.
    pub closed spec fn view(&self) -> Seq<u64> {
        self.seen@
    }

    /// The markers as they stand.
    spec fn markers(&self) -> Markers {
        Markers { q: lift(self.q), n: lift(self.n), np: lift(self.np) }
    }

    /// The observations buffered before the markers exist.
    spec fn buffer(&self) -> Seq<u64> {
        self.initial@
    }

    /// The state is the one that the counted observations lead to: they are
    /// buffered while fewer than five, and shape the markers from then on.
    pub closed spec fn wf(&self) -> bool {
        &&& self.count == self.seen@.len()
        &&& self.count <= P2_CAPACITY
        &&& self.count < 5 ==> self.initial@ == self.seen@
        &&& self.count >= 5 ==> {
            &&& self.markers() == markers(self.seen@)
            &&& markers_wf(self.markers())
            &&& self.n[4] == self.count
            &&& self.has_rates()
        }
    }

    /// The increment rates are those of the 0.95 quantile.
    spec fn has_rates(&self) -> bool {
        forall|i: int| 0 <= i < 5 ==> self.dn[i] == rate(i)
    }

    /// Everything but the markers' heights and positions is as in `other`.
    spec fn same_but_markers(&self, other: &Self) -> bool {
        &&& self.initial == other.initial
        &&& self.np == other.np
        &&& self.dn == other.dn
        &&& self.count == other.count
        &&& self.seen == other.seen
    }

    /// An estimator that has observed nothing.
    pub fn new() -> (r: Self)
        ensures
            r.wf(),
            r@ == Seq::<u64>::empty(),
    {
        P2Quantile {
            initial: Vec::new(),
            n: [0, 0, 0, 0, 0],
            np: [0, 0, 0, 0, 0],
            dn: [0, 0, 0, 0, 0],
            q: [0, 0, 0, 0, 0],
            count: 0,
            seen: Ghost(Seq::empty()),
        }
    }

    /// The 0.95 quantile of `samples` by linear interpolation between the two
    /// ordered samples around rank `0.95 * (len - 1)`; `None` of no samples.
    pub fn estimate_from_samples(samples: &Vec<u64>) -> (r: Option<u64>)
        ensures
            samples@.len() == 0 ==> r is None,
            samples@.len() > 0 ==> r == Some(interpolate(sorted(samples@)) as u64),
            samples@.len() > 0 ==> 0 <= interpolate(sorted(samples@)) <= u64::MAX,
    {
        if samples.len() == 0 {
            return None;
        }
        let ordered = sorted_copy(samples);
        proof {
            lemma_sorted(samples@);
            lemma_interpolate_bounds(ordered@);
        }
        let rank20: u128 = 19 * ((ordered.len() - 1) as u128);
        let lo: usize = (rank20 / 20) as usize;
        let part: u128 = rank20 % 20;
        if part == 0 {
            Some(ordered[lo])
        } else {
            let below: u64 = ordered[lo];
            let above: u64 = ordered[lo + 1];
            let gap: u128 = (above - below) as u128;
            assert(gap * part <= 0xffff_ffff_ffff_ffff * 20) by (nonlinear_arith)
                requires
                    0 <= gap <= 0xffff_ffff_ffff_ffff,
                    0 <= part < 20,
            ;
            let part_of_gap: u128 = gap * part / 20;
            Some(below + (part_of_gap as u64))
        }
    }

    /// Turns the five buffered observations into the first markers: the
    /// ordered observations at positions 1 to 5. The buffer is given up.
    fn init_from_first_five(&mut self)
        requires
            old(self).buffer().len() == 5,
        ensures
            final(self).markers() == bootstrap(sorted(old(self).buffer())),
            markers_wf(final(self).markers()),
            final(self).has_rates(),
            final(self).buffer().len() == 0,
            final(self)@ == old(self)@,
            final(self).count_value() == old(self).count_value(),
    {
        let ordered = sorted_copy(&self.initial);
        proof {
            lemma_sorted(self.initial@);
        }
        let mut i: usize = 0;
        while i < 5
            invariant
                i <= 5,
                ordered@.len() == 5,
                forall|j: int| 0 <= j < i ==> self.q[j] == ordered@[j],
                forall|j: int| 0 <= j < i ==> self.n[j] == j + 1,
                self.initial == old(self).initial,
                self.count == old(self).count,
                self.seen == old(self).seen,
            decreases 5 - i,
        {
            self.q[i] = ordered[i];
            self.n[i] = (i as u64) + 1;
            i += 1;
        }
        self.np = [40, 116, 192, 196, 200];
        self.dn = [0, 19, 38, 39, 40];
        self.initial = Vec::new();
        proof {
            let m = bootstrap(sorted(old(self).buffer()));
            assert(self.markers().q =~= m.q);
            assert(self.markers().n =~= m.n);
            assert(self.markers().np =~= m.np);
        }
    }

    /// The number of counted observations, as stored.
    spec fn count_value(&self) -> u64 {
        self.count
    }

    /// Moves marker `i` one position up (`sign` 1) or down (`sign` -1), to
    /// the parabolic height where that lies strictly between the neighbouring
    /// heights, else to the linear one.
    fn adjust_marker(&mut self, i: usize, sign: i64)
        requires
            adjustable(old(self).markers(), i as int, sign as int),
        ensures
            final(self).markers() == moved(old(self).markers(), i as int, sign as int),
            final(self).same_but_markers(old(self)),
    {
        let ghost m = self.markers();
        let n_im1 = self.n[i - 1];
        let n_i = self.n[i];
        let n_ip1 = self.n[i + 1];
        let q_im1 = self.q[i - 1];
        let q_i = self.q[i];
        let q_ip1 = self.q[i + 1];
        let a: u128 = (n_i - n_im1) as u128;
        let c: u128 = (n_ip1 - n_i) as u128;
        let lower: u128 = (q_i - q_im1) as u128;
        let upper: u128 = (q_ip1 - q_i) as u128;
        proof {
            lemma_span_bound(a as int, c as int);
            lemma_div_le(upper as int, c as int);
            lemma_div_le(lower as int, a as int);
        }
        let den: u128 = a * c * (a + c);
        if sign > 0 {
            proof {
                lemma_product_bound(a + 1, upper as int, a as int);
                lemma_product_bound(c - 1, lower as int, c as int);
            }
            let num: u128 = (a + 1) * upper * a + (c - 1) * lower * c;
            let offset: u128 = num / den;
            let q_new: u64 = if (q_i as u128) + offset > (q_im1 as u128) && offset < upper {
                q_i + (offset as u64)
            } else {
                q_i + ((upper / c) as u64)
            };
            self.q[i] = q_new;
            self.n[i] = n_i + 1;
        } else {
            proof {
                lemma_product_bound(a - 1, upper as int, a as int);
                lemma_product_bound(c + 1, lower as int, c as int);
            }
            let num: u128 = (a - 1) * upper * a + (c + 1) * lower * c;
            let offset: u128 = num / den;
            let q_new: u64 = if offset < lower && (offset > 0 || q_i < q_ip1) {
                q_i - (offset as u64)
            } else {
                q_i - ((lower / a) as u64)
            };
            self.q[i] = q_new;
            self.n[i] = n_i - 1;
        }
        proof {
            let after = moved(m, i as int, sign as int);
            assert(self.markers().q =~= after.q);
            assert(self.markers().n =~= after.n);
        }
    }

    /// Counts one observation: buffers it while there are fewer than five,
    /// makes the markers of the fifth, and from the sixth on places it among
    /// the markers and adjusts the three inner ones. An estimator that has
    /// counted `P2_CAPACITY` observations stays as it is.
    pub fn observe(&mut self, x: u64)
        requires
            old(self).wf(),
        ensures
            final(self).wf(),
            final(self)@ == (if old(self)@.len() < P2_CAPACITY {
                old(self)@.push(x)
            } else {
                old(self)@
            }),
    {
        if self.count >= P2_CAPACITY {
            return ;
        }
        let ghost now = self.seen@.push(x);
        if self.count < 5 {
            self.initial.push(x);
            self.count += 1;
            self.seen = Ghost(now);
            if self.count == 5 {
                self.init_from_first_five();
            }
            return ;
        }
        let ghost before = self.markers();
        proof {
            assert(now.drop_last() =~= self.seen@);
            lemma_step_wf(before, x as int);
        }
        self.count += 1;
        let k: usize = if x < self.q[0] {
            self.q[0] = x;
            0
        } else if x < self.q[1] {
            0
        } else if x < self.q[2] {
            1
        } else if x < self.q[3] {
            2
        } else if x <= self.q[4] {
            3
        } else {
            self.q[4] = x;
            3
        };
        let ghost placed = place(before, x as int);
        let ghost heights = self.q;
        assert(lift(heights) =~= placed.q);
        let mut i: usize = k + 1;
        while i < 5
            invariant
                k < i <= 5,
                placed.n.len() == 5,
                forall|j: int| 0 <= j < i ==> self.n[j] == placed.n[j],
                forall|j: int| i <= j < 5 ==> self.n[j] == before.n[j],
                forall|j: int| 0 <= j <= k ==> placed.n[j] == before.n[j],
                forall|j: int| k < j < 5 ==> placed.n[j] == before.n[j] + 1,
                ordered(before),
                before.n[4] < P2_CAPACITY,
                self.q == heights,
                self.np == old(self).np,
                self.dn == old(self).dn,
                self.initial == old(self).initial,
                self.count == old(self).count + 1,
                self.seen == old(self).seen,
            decreases 5 - i,
        {
            self.n[i] += 1;
            i += 1;
        }
        let mut i: usize = 0;
        while i < 5
            invariant
                i <= 5,
                placed.np.len() == 5,
                forall|j: int| 0 <= j < i ==> self.np[j] == placed.np[j],
                forall|j: int| i <= j < 5 ==> self.np[j] == before.np[j],
                forall|j: int| 0 <= j < 5 ==> placed.np[j] == before.np[j] + rate(j),
                forall|j: int| 0 <= j < 5 ==> self.dn[j] == rate(j),
                markers_wf(before),
                before.n[4] < P2_CAPACITY,
                lift(self.n) == placed.n,
                self.q == heights,
                self.dn == old(self).dn,
                self.initial == old(self).initial,
                self.count == old(self).count + 1,
                self.seen == old(self).seen,
            decreases 5 - i,
        {
            assert(self.dn[i as int] == rate(i as int) <= 40);
            self.np[i] += self.dn[i];
            i += 1;
        }
        assert(self.markers().np =~= placed.np);
        let mut i: usize = 1;
        while i <= 3
            invariant
                1 <= i <= 4,
                markers_wf(placed),
                markers_wf(self.markers()),
                self.markers().n[4] == placed.n[4],
                i == 1 ==> self.markers() == placed,
                i == 2 ==> self.markers() == adjusted(placed, 1),
                i == 3 ==> self.markers() == adjusted(adjusted(placed, 1), 2),
                i == 4 ==> self.markers() == adjusted(adjusted(adjusted(placed, 1), 2), 3),
                self.dn == old(self).dn,
                self.initial == old(self).initial,
                self.count == old(self).count + 1,
                self.seen == old(self).seen,
            decreases 4 - i,
        {
            let ghost m = self.markers();
            proof {
                lemma_adjusted_wf(m, i as int);
            }
            if self.np[i] >= 40 * self.n[i] + 40 && self.n[i + 1] - self.n[i] > 1 {
                self.adjust_marker(i, 1);
            } else if self.np[i] + 40 <= 40 * self.n[i] && self.n[i] - self.n[i - 1] > 1 {
                self.adjust_marker(i, -1);
            }
            i += 1;
        }
        self.seen = Ghost(now);
    }

    /// The estimate of the 0.95 quantile: `None` before the first
    /// observation, the interpolation over the ordered buffer while there are
    /// fewer than five, and the middle marker's height from then on.
    pub fn estimate(&self) -> (r: Option<u64>)
        requires
            self.wf(),
        ensures
            r == estimate_of(self@),
    {
        if self.count == 0 {
            return None;
        }
        if self.count < 5 {
            return Self::estimate_from_samples(&self.initial);
        }
        Some(self.q[2])
    }

    /// The number of observations that have been counted.
    pub fn count(&self) -> (r: u64)
        requires
            self.wf(),
        ensures
            r == self@.len(),
    {
        self.count
    }
}

/// The least element of the non-empty sequence `s`.
pub open spec fn lowest(s: Seq<u64>) -> u64
    decreases s.len(),
{
    if s.len() <= 1 {
        s[0]
    } else if s.last() < lowest(s.drop_last()) {
        s.last()
    } else {
        lowest(s.drop_last())
    }
}

/// The greatest element of the non-empty sequence `s`.
pub open spec fn highest(s: Seq<u64>) -> u64
    decreases s.len(),
{
    if s.len() <= 1 {
        s[0]
    } else if s.last() > highest(s.drop_last()) {
        s.last()
    } else {
        highest(s.drop_last())
    }
}

/// The least and the greatest element are elements, and every element lies
/// between them.
pub proof fn lemma_extremes(s: Seq<u64>)
    requires
        s.len() > 0,
    ensures
        exists|i: int| 0 <= i < s.len() && #[trigger] s[i] == lowest(s),
        exists|i: int| 0 <= i < s.len() && #[trigger] s[i] == highest(s),
        forall|j: int| 0 <= j < s.len() ==> lowest(s) <= #[trigger] s[j] <= highest(s),
    decreases s.len(),
{
    if s.len() > 1 {
        let rest = s.drop_last();
        lemma_extremes(rest);
        assert forall|j: int| 0 <= j < rest.len() implies rest[j] == s[j] by {}
    } else {
        assert(s[0] == lowest(s) && s[0] == highest(s));
    }
}

/// The ordered arrangement begins with the least element and ends with the
/// greatest.
pub proof fn lemma_sorted_ends(s: Seq<u64>)
    requires
        s.len() > 0,
    ensures
        sorted(s).len() == s.len(),
        sorted(s)[0] == lowest(s),
        sorted(s).last() == highest(s),
    decreases s.len(),
{
    lemma_sorted(s);
    lemma_sorted(s.drop_last());
    let head = sorted(s.drop_last());
    lemma_insert_sorted_at_rank(head, s.last());
    if s.len() > 1 {
        lemma_sorted_ends(s.drop_last());
        let p = rank_of(head, s.last());
        if p < head.len() {
            assert(head[p] > s.last()) by {
                lemma_rank_of_next(head, s.last());
            }
        }
        if p > 0 {
            assert(head[p - 1] <= s.last()) by {
                lemma_rank_of_prev(head, s.last());
            }
        }
    }
}

proof fn lemma_rank_of_next(s: Seq<u64>, x: u64)
    requires
        rank_of(s, x) < s.len(),
    ensures
        0 <= rank_of(s, x),
        s[rank_of(s, x)] > x,
    decreases s.len(),
{
    lemma_insert_sorted_at_rank(s, x);
    if s.len() > 0 && s.last() > x {
        lemma_insert_sorted_at_rank(s.drop_last(), x);
        if rank_of(s.drop_last(), x) < s.len() - 1 {
            lemma_rank_of_next(s.drop_last(), x);
        }
    }
}

proof fn lemma_rank_of_prev(s: Seq<u64>, x: u64)
    requires
        rank_of(s, x) > 0,
    ensures
        rank_of(s, x) <= s.len(),
        s[rank_of(s, x) - 1] <= x,
    decreases s.len(),
{
    if s.len() > 0 && s.last() > x {
        lemma_rank_of_prev(s.drop_last(), x);
    }
}

/// From the fifth observation on the markers are well formed, the last
/// position is the number of observations, and the outer heights are the
/// least and the greatest observation.
pub proof fn lemma_markers(s: Seq<u64>)
    requires
        5 <= s.len() <= P2_CAPACITY,
    ensures
        markers_wf(markers(s)),
        markers(s).n[4] == s.len(),
        markers(s).q[0] == lowest(s),
        markers(s).q[4] == highest(s),
    decreases s.len(),
{
    if s.len() == 5 {
        lemma_sorted(s);
        lemma_sorted_ends(s);
    } else {
        lemma_markers(s.drop_last());
        lemma_step_wf(markers(s.drop_last()), s.last() as int);
    }
}

/// Whatever has been observed, the estimate lies between the least and the
/// greatest observation.
pub proof fn lemma_estimate_between_extremes(s: Seq<u64>)
    requires
        0 < s.len() <= P2_CAPACITY,
    ensures
        estimate_of(s) matches Some(e) && lowest(s) <= e <= highest(s),
{
    if s.len() < 5 {
        lemma_sorted(s);
        lemma_sorted_ends(s);
        lemma_interpolate_bounds(sorted(s));
    } else {
        lemma_markers(s);
    }
}

} // verus!
