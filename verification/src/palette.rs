//! Choosing the colors of a character cell: squared color distances,
//! nearest colors, and k-means clustering of a cell's pixel colors.
use vstd::prelude::*;

use crate::color::Rgb;

verus! {

/// The color that clusters start from and that an empty cluster has.
pub open spec fn gray() -> Rgb {
    Rgb { r: 0x88, g: 0x88, b: 0x88 }
}

/// The most colors whose channel sums fit a `u32`.
pub const MAX_COLORS: usize = 16843009;

/// How many rounds of clustering are run before giving up on a fixed
/// point.
pub const MAX_ROUNDS: u64 = 0xFFFF_FFFF_FFFF_FFFF;

/// The squared Euclidean distance of two colors.
pub open spec fn dist2(a: Rgb, b: Rgb) -> int {
    (a.r - b.r) * (a.r - b.r) + (a.g - b.g) * (a.g - b.g) + (a.b - b.b) * (a.b - b.b)
}

/// The index of the first of `cents[0..n]` nearest to `color`.
pub open spec fn nearest_in(color: Rgb, cents: Seq<Rgb>, n: int) -> int
    decreases n,
{
    if n <= 1 {
        0
    } else {
        let j = nearest_in(color, cents, n - 1);
        if dist2(color, cents[n - 1]) < dist2(color, cents[j]) {
            n - 1
        } else {
            j
        }
    }
}

/// The first of the palette's colors that is nearest to `color`, or
/// `color` itself for an empty palette.
pub open spec fn closest_color(color: Rgb, palette: Seq<Rgb>) -> Rgb {
    if palette.len() == 0 {
        color
    } else {
        palette[nearest_in(color, palette, palette.len() as int)]
    }
}

/// The sums of the red, green and blue channels of some colors.
pub open spec fn channel_sums(s: Seq<Rgb>) -> (nat, nat, nat)
    decreases s.len(),
{
    if s.len() == 0 {
        (0, 0, 0)
    } else {
        let p = channel_sums(s.drop_last());
        let c = s.last();
        (p.0 + c.r as nat, p.1 + c.g as nat, p.2 + c.b as nat)
    }
}

/// The colors that are nearest to centroid `k`, in order.
pub open spec fn members(colors: Seq<Rgb>, cents: Seq<Rgb>, k: int) -> Seq<Rgb>
    decreases colors.len(),
{
    if colors.len() == 0 {
        Seq::empty()
    } else {
        let p = members(colors.drop_last(), cents, k);
        if nearest_in(colors.last(), cents, cents.len() as int) == k {
            p.push(colors.last())
        } else {
            p
        }
    }
}

/// The mean of some colors, each channel rounded down; gray for none.
pub open spec fn mean_color(s: Seq<Rgb>) -> Rgb {
    if s.len() == 0 {
        gray()
    } else {
        let t = channel_sums(s);
        Rgb {
            r: (t.0 / s.len()) as u8,
            g: (t.1 / s.len()) as u8,
            b: (t.2 / s.len()) as u8,
        }
    }
}

/// One round of k-means: each color joins its nearest centroid, and each
/// centroid becomes the mean of its members.
pub open spec fn means_step(colors: Seq<Rgb>, cents: Seq<Rgb>) -> Seq<Rgb> {
    Seq::new(cents.len(), |k: int| mean_color(members(colors, cents, k)))
}

/// The centroids after `n` rounds from `k` gray centroids.
pub open spec fn means_iter(colors: Seq<Rgb>, k: nat, n: nat) -> Seq<Rgb>
    decreases n,
{
    if n == 0 {
        Seq::new(k, |i: int| gray())
    } else {
        means_step(colors, means_iter(colors, k, (n - 1) as nat))
    }
}

/// Whether the centroids after `n` rounds are a fixed point.
pub open spec fn converged(colors: Seq<Rgb>, k: nat, n: nat) -> bool {
    means_step(colors, means_iter(colors, k, n)) == means_iter(colors, k, n)
}

/// The result of clustering: the centroids of the first round `n` below
/// `MAX_ROUNDS` that are a fixed point, or those after `MAX_ROUNDS`
/// rounds when none is.
pub open spec fn clustered(colors: Seq<Rgb>, k: nat, result: Seq<Rgb>) -> bool {
    exists|n: nat|
        {
            &&& result == means_iter(colors, k, n)
            &&& forall|m: nat| m < n ==> !#[trigger] converged(colors, k, m)
            &&& (converged(colors, k, n) || n == MAX_ROUNDS)
            &&& n <= MAX_ROUNDS
        }
}

/// The centroids that clustering gives (see `clustered`).
pub open spec fn cluster_result(colors: Seq<Rgb>, k: nat) -> Seq<Rgb> {
    choose|r: Seq<Rgb>| clustered(colors, k, r)
}

/// The two centroids that the colors of a cell cluster into.
pub open spec fn two_means(colors: Seq<Rgb>) -> Seq<Rgb> {
    cluster_result(colors, 2)
}

/// Clustering has one result.
pub proof fn lemma_clustered_unique(colors: Seq<Rgb>, k: nat, r1: Seq<Rgb>, r2: Seq<Rgb>)
    requires
        clustered(colors, k, r1),
        clustered(colors, k, r2),
    ensures
        r1 == r2,
{
    let n1 = choose|n: nat|
        {
            &&& r1 == means_iter(colors, k, n)
            &&& forall|m: nat| m < n ==> !#[trigger] converged(colors, k, m)
            &&& (converged(colors, k, n) || n == MAX_ROUNDS)
            &&& n <= MAX_ROUNDS
        };
    let n2 = choose|n: nat|
        {
            &&& r2 == means_iter(colors, k, n)
            &&& forall|m: nat| m < n ==> !#[trigger] converged(colors, k, m)
            &&& (converged(colors, k, n) || n == MAX_ROUNDS)
            &&& n <= MAX_ROUNDS
        };
    if n1 < n2 {
        assert(!converged(colors, k, n1));
    } else if n2 < n1 {
        assert(!converged(colors, k, n2));
    }
}

/// The squared distance of two colors.
pub fn distance2(c1: Rgb, c2: Rgb) -> (d: u32)
    ensures
        d == dist2(c1, c2),
{
    let dr: i32 = c1.r as i32 - c2.r as i32;
    let dg: i32 = c1.g as i32 - c2.g as i32;
    let db: i32 = c1.b as i32 - c2.b as i32;
    assert(dr * dr <= 65025 && dg * dg <= 65025 && db * db <= 65025) by (nonlinear_arith)
        requires
            -255 <= dr <= 255,
            -255 <= dg <= 255,
            -255 <= db <= 255,
    ;
    assert(0 <= dr * dr && 0 <= dg * dg && 0 <= db * db) by (nonlinear_arith);
    (dr * dr) as u32 + (dg * dg) as u32 + (db * db) as u32
}

/// The index of the first of the centroids nearest to `color`.
pub fn nearest_index(color: Rgb, cents: &[Rgb]) -> (j: usize)
    requires
        cents@.len() >= 1,
    ensures
        j == nearest_in(color, cents@, cents@.len() as int),
        j < cents@.len(),
{
    let k = cents.len();
    let mut closest_index: usize = 0;
    let mut min_distance = distance2(color, cents[0]);
    let mut j: usize = 1;
    while j < k
        invariant
            k == cents@.len(),
            1 <= j <= k,
            closest_index == nearest_in(color, cents@, j as int),
            closest_index < j,
            min_distance == dist2(color, cents@[closest_index as int]),
        decreases k - j,
    {
        let d = distance2(color, cents[j]);
        if d < min_distance {
            min_distance = d;
            closest_index = j;
        }
        j = j + 1;
    }
    closest_index
}

/// The first color of the palette nearest to `color`; `color` itself when
/// the palette is empty.
pub fn get_clostest_color(color: Rgb, palette: &[Rgb]) -> (c: Rgb)
    ensures
        c == closest_color(color, palette@),
{
    if palette.len() == 0 {
        return color;
    }
    let j = nearest_index(color, palette);
    palette[j]
}

/// Running channel sums and the number of colors of a cluster.
#[derive(Debug, Clone, Copy, PartialEq, Eq, Structural)]
pub struct Cluster {
    pub r: u32,
    pub g: u32,
    pub b: u32,
    pub count: u32,
}

impl Cluster {
    /// The cluster holds the sums of some colors: no channel sum exceeds
    /// 255 per color.
    pub open spec fn wf(&self) -> bool {
        &&& self.r <= 255 * self.count
        &&& self.g <= 255 * self.count
        &&& self.b <= 255 * self.count
    }

    /// The cluster of the given colors.
    pub open spec fn of(s: Seq<Rgb>) -> Cluster {
        let t = channel_sums(s);
        Cluster { r: t.0 as u32, g: t.1 as u32, b: t.2 as u32, count: s.len() as u32 }
    }

    pub fn new() -> (c: Cluster)
        ensures
            c == Cluster::of(Seq::empty()),
    {
        Cluster { r: 0, g: 0, b: 0, count: 0 }
    }

    pub fn clear(&mut self)
        ensures
            *final(self) == Cluster::of(Seq::empty()),
    {
        self.r = 0;
        self.g = 0;
        self.b = 0;
        self.count = 0;
    }

    /// Adds a color to the cluster.
    pub fn add(&mut self, color: Rgb)
        requires
            old(self).r + 255 <= u32::MAX,
            old(self).g + 255 <= u32::MAX,
            old(self).b + 255 <= u32::MAX,
            old(self).count + 1 <= u32::MAX,
        ensures
            final(self).r == old(self).r + color.r,
            final(self).g == old(self).g + color.g,
            final(self).b == old(self).b + color.b,
            final(self).count == old(self).count + 1,
    {
        self.r = self.r + color.r as u32;
        self.g = self.g + color.g as u32;
        self.b = self.b + color.b as u32;
        self.count = self.count + 1;
    }

    /// The mean color of the cluster; gray when it is empty.
    pub fn to_centroid(&self) -> (c: Rgb)
        requires
            self.wf(),
        ensures
            self.count == 0 ==> c == gray(),
            self.count > 0 ==> c == (Rgb {
                r: (self.r / self.count) as u8,
                g: (self.g / self.count) as u8,
                b: (self.b / self.count) as u8,
            }),
    {
        if self.count == 0 {
            return Rgb { r: 0x88, g: 0x88, b: 0x88 };
        }
        proof {
            lemma_mean_bound(self.r as int, self.count as int);
            lemma_mean_bound(self.g as int, self.count as int);
            lemma_mean_bound(self.b as int, self.count as int);
        }
        Rgb {
            r: (self.r / self.count) as u8,
            g: (self.g / self.count) as u8,
            b: (self.b / self.count) as u8,
        }
    }
}

proof fn lemma_mean_bound(sum: int, count: int)
    requires
        0 <= sum <= 255 * count,
        count > 0,
    ensures
        sum / count <= 255,
{
    vstd::arithmetic::div_mod::lemma_div_is_ordered(sum, 255 * count, count);
    vstd::arithmetic::div_mod::lemma_div_multiples_vanish(255, count);
}

proof fn lemma_channel_sums_bound(s: Seq<Rgb>)
    ensures
        channel_sums(s).0 <= 255 * s.len(),
        channel_sums(s).1 <= 255 * s.len(),
        channel_sums(s).2 <= 255 * s.len(),
    decreases s.len(),
{
    if s.len() > 0 {
        lemma_channel_sums_bound(s.drop_last());
    }
}

proof fn lemma_members_len(colors: Seq<Rgb>, cents: Seq<Rgb>, k: int)
    ensures
        members(colors, cents, k).len() <= colors.len(),
    decreases colors.len(),
{
    if colors.len() > 0 {
        lemma_members_len(colors.drop_last(), cents, k);
    }
}

/// The mean of some colors, each channel rounded down.
pub fn calc_centroid(cluster: &[Rgb]) -> (c: Rgb)
    requires
        0 < cluster@.len() <= MAX_COLORS,
    ensures
        c == mean_color(cluster@),
{
    let n = cluster.len();
    let mut r: u32 = 0;
    let mut g: u32 = 0;
    let mut b: u32 = 0;
    let mut i: usize = 0;
    while i < n
        invariant
            n == cluster@.len(),
            n <= MAX_COLORS,
            i <= n,
            (r as nat, g as nat, b as nat) == channel_sums(cluster@.subrange(0, i as int)),
        decreases n - i,
    {
        proof {
            lemma_channel_sums_bound(cluster@.subrange(0, i as int));
            assert(cluster@.subrange(0, i + 1).drop_last() =~= cluster@.subrange(0, i as int));
        }
        let color = cluster[i];
        r = r + color.r as u32;
        g = g + color.g as u32;
        b = b + color.b as u32;
        i = i + 1;
    }
    proof {
        assert(cluster@.subrange(0, n as int) =~= cluster@);
        lemma_channel_sums_bound(cluster@);
        lemma_mean_bound(r as int, n as int);
        lemma_mean_bound(g as int, n as int);
        lemma_mean_bound(b as int, n as int);
    }
    let count: u32 = n as u32;
    Rgb { r: (r / count) as u8, g: (g / count) as u8, b: (b / count) as u8 }
}

/// One round of k-means on the given centroids.
pub fn means_round(colors: &[Rgb], cents: &Vec<Rgb>) -> (r: Vec<Rgb>)
    requires
        cents@.len() >= 1,
        colors@.len() <= MAX_COLORS,
    ensures
        r@ == means_step(colors@, cents@),
{
    let k = cents.len();
    let n = colors.len();
    let mut clusters: Vec<Cluster> = Vec::new();
    let mut kk: usize = 0;
    while kk < k
        invariant
            kk <= k,
            clusters@.len() == kk,
            forall|j: int| 0 <= j < kk ==> #[trigger] clusters@[j] == Cluster::of(Seq::empty()),
        decreases k - kk,
    {
        clusters.push(Cluster::new());
        kk = kk + 1;
    }
    let mut i: usize = 0;
    while i < n
        invariant
            k == cents@.len(),
            k >= 1,
            n == colors@.len(),
            n <= MAX_COLORS,
            i <= n,
            clusters@.len() == k,
            forall|j: int|
                0 <= j < k ==> #[trigger] clusters@[j] == Cluster::of(
                    members(colors@.subrange(0, i as int), cents@, j),
                ),
        decreases n - i,
    {
        let color = colors[i];
        let idx = nearest_index(color, cents.as_slice());
        let ghost prefix = colors@.subrange(0, i as int);
        let ghost next = colors@.subrange(0, i + 1);
        proof {
            assert(next.drop_last() =~= prefix);
            assert(next.last() == color);
            lemma_members_len(prefix, cents@, idx as int);
            lemma_channel_sums_bound(members(prefix, cents@, idx as int));
        }
        let mut c = clusters[idx];
        c.add(color);
        clusters.set(idx, c);
        proof {
            assert forall|j: int| 0 <= j < k implies #[trigger] clusters@[j] == Cluster::of(
                members(next, cents@, j),
            ) by {
                if j == idx {
                    let m = members(prefix, cents@, j);
                    assert(members(next, cents@, j) == m.push(color));
                    assert(m.push(color).drop_last() =~= m);
                } else {
                    assert(members(next, cents@, j) == members(prefix, cents@, j));
                }
            }
        }
        i = i + 1;
    }
    assert(colors@.subrange(0, n as int) =~= colors@);
    let mut result: Vec<Rgb> = Vec::new();
    let mut kk: usize = 0;
    while kk < k
        invariant
            k == cents@.len(),
            kk <= k,
            clusters@.len() == k,
            n == colors@.len(),
            n <= MAX_COLORS,
            forall|j: int|
                0 <= j < k ==> #[trigger] clusters@[j] == Cluster::of(members(colors@, cents@, j)),
            result@.len() == kk,
            forall|j: int|
                0 <= j < kk ==> #[trigger] result@[j] == mean_color(members(colors@, cents@, j)),
        decreases k - kk,
    {
        let ghost m = members(colors@, cents@, kk as int);
        proof {
            lemma_members_len(colors@, cents@, kk as int);
            lemma_channel_sums_bound(m);
        }
        let c = clusters[kk].to_centroid();
        result.push(c);
        kk = kk + 1;
    }
    assert(result@ =~= means_step(colors@, cents@));
    result
}

/// Whether two color sequences are equal.
fn same_colors(a: &Vec<Rgb>, b: &Vec<Rgb>) -> (r: bool)
    ensures
        r == (a@ == b@),
{
    if a.len() != b.len() {
        return false;
    }
    let mut i: usize = 0;
    while i < a.len()
        invariant
            a@.len() == b@.len(),
            i <= a@.len(),
            forall|j: int| 0 <= j < i ==> a@[j] == b@[j],
        decreases a@.len() - i,
    {
        if a[i] != b[i] {
            return false;
        }
        i = i + 1;
    }
    assert(a@ =~= b@);
    true
}

/// Clusters the colors around `k` centroids by k-means, starting from `k`
/// gray centroids, until the centroids no longer change.
pub fn kmeans(k: usize, colors: &[Rgb]) -> (r: Vec<Rgb>)
    requires
        colors@.len() <= MAX_COLORS,
    ensures
        r@.len() == k,
        k > 0 ==> clustered(colors@, k as nat, r@),
        k > 0 ==> r@ == cluster_result(colors@, k as nat),
{
    if k == 0 {
        return Vec::new();
    }
    let r = kmeans_rounds(k, colors);
    proof {
        lemma_clustered_unique(colors@, k as nat, r@, cluster_result(colors@, k as nat));
    }
    r
}

fn kmeans_rounds(k: usize, colors: &[Rgb]) -> (r: Vec<Rgb>)
    requires
        k > 0,
        colors@.len() <= MAX_COLORS,
    ensures
        r@.len() == k,
        clustered(colors@, k as nat, r@),
{
    let mut centroids: Vec<Rgb> = Vec::new();
    let mut j: usize = 0;
    while j < k
        invariant
            j <= k,
            centroids@.len() == j,
            forall|i: int| 0 <= i < j ==> #[trigger] centroids@[i] == gray(),
        decreases k - j,
    {
        centroids.push(Rgb { r: 0x88, g: 0x88, b: 0x88 });
        j = j + 1;
    }
    assert(centroids@ =~= means_iter(colors@, k as nat, 0));
    let mut round: u64 = 0;
    while round < MAX_ROUNDS
        invariant
            k >= 1,
            colors@.len() <= MAX_COLORS,
            centroids@ == means_iter(colors@, k as nat, round as nat),
            centroids@.len() == k,
            forall|m: nat| m < round ==> !#[trigger] converged(colors@, k as nat, m),
        decreases MAX_ROUNDS - round,
    {
        let new_centroids = means_round(colors, &centroids);
        if same_colors(&new_centroids, &centroids) {
            assert(converged(colors@, k as nat, round as nat));
            return new_centroids;
        }
        centroids = new_centroids;
        round = round + 1;
    }
    centroids
}

/// Splits the colors into two clusters by k-means and gives their
/// centroids.
pub fn bin_means(colors: &[Rgb]) -> (r: [Rgb; 2])
    requires
        colors@.len() <= MAX_COLORS,
    ensures
        clustered(colors@, 2, r@),
        r@ == two_means(colors@),
{
    let c = kmeans(2, colors);
    let r = [c[0], c[1]];
    assert(r@ =~= c@);
    r
}

proof fn lemma_nearest_in(color: Rgb, cents: Seq<Rgb>, n: int)
    requires
        1 <= n <= cents.len(),
    ensures
        0 <= nearest_in(color, cents, n) < n,
        forall|i: int|
            0 <= i < n ==> dist2(color, cents[nearest_in(color, cents, n)]) <= dist2(
                color,
                #[trigger] cents[i],
            ),
    decreases n,
{
    if n > 1 {
        lemma_nearest_in(color, cents, n - 1);
    }
}

/// The closest color is one of the palette's, and no color of the
/// palette is nearer.
pub proof fn closest_color_is_nearest(color: Rgb, palette: Seq<Rgb>)
    requires
        palette.len() > 0,
    ensures
        palette.contains(closest_color(color, palette)),
        forall|i: int|
            0 <= i < palette.len() ==> dist2(color, closest_color(color, palette)) <= dist2(
                color,
                #[trigger] palette[i],
            ),
{
    lemma_nearest_in(color, palette, palette.len() as int);
    let j = nearest_in(color, palette, palette.len() as int);
    assert(palette[j] == closest_color(color, palette));
}

/// The distance of two colors does not depend on their order, and is
/// zero exactly for equal colors.
pub proof fn dist2_symmetric_and_zero(a: Rgb, b: Rgb)
    ensures
        dist2(a, b) == dist2(b, a),
        dist2(a, b) >= 0,
        dist2(a, b) == 0 <==> a == b,
{
    let dr = a.r - b.r;
    let dg = a.g - b.g;
    let db = a.b - b.b;
    assert(dist2(a, b) == dr * dr + dg * dg + db * db);
    assert(dist2(b, a) == (-dr) * (-dr) + (-dg) * (-dg) + (-db) * (-db));
    assert(dr * dr >= 0 && dg * dg >= 0 && db * db >= 0) by (nonlinear_arith);
    assert(dr * dr == (-dr) * (-dr) && dg * dg == (-dg) * (-dg) && db * db == (-db) * (-db))
        by (nonlinear_arith);
    if a == b {
        assert(dr == 0 && dg == 0 && db == 0);
        assert(dr * dr + dg * dg + db * db == 0) by (nonlinear_arith)
            requires
                dr == 0 && dg == 0 && db == 0,
        ;
    }
    if dr * dr + dg * dg + db * db == 0 {
        assert(dr == 0 && dg == 0 && db == 0) by (nonlinear_arith)
            requires
                dr * dr + dg * dg + db * db == 0,
                dr * dr >= 0,
                dg * dg >= 0,
                db * db >= 0,
        ;
        assert(a.r == b.r && a.g == b.g && a.b == b.b);
        assert(a == b);
    }
}

proof fn lemma_means_iter_len(colors: Seq<Rgb>, k: nat, n: nat)
    ensures
        means_iter(colors, k, n).len() == k,
    decreases n,
{
    if n > 0 {
        lemma_means_iter_len(colors, k, (n - 1) as nat);
    }
}

proof fn lemma_first_converged(colors: Seq<Rgb>, k: nat, n: nat)
    requires
        converged(colors, k, n),
    ensures
        exists|m: nat|
            m <= n && #[trigger] converged(colors, k, m) && forall|j: nat|
                j < m ==> !#[trigger] converged(colors, k, j),
    decreases n,
{
    if exists|j: nat| j < n && #[trigger] converged(colors, k, j) {
        let j = choose|j: nat| j < n && #[trigger] converged(colors, k, j);
        lemma_first_converged(colors, k, j);
    } else {
        assert(forall|j: nat| j < n ==> !#[trigger] converged(colors, k, j));
    }
}

/// Clustering has a result, with one centroid per cluster.
pub proof fn lemma_cluster_result(colors: Seq<Rgb>, k: nat)
    ensures
        clustered(colors, k, cluster_result(colors, k)),
        cluster_result(colors, k).len() == k,
{
    if exists|m: nat| m < MAX_ROUNDS && #[trigger] converged(colors, k, m) {
        let m0 = choose|m: nat| m < MAX_ROUNDS && #[trigger] converged(colors, k, m);
        lemma_first_converged(colors, k, m0);
        let m = choose|m: nat|
            m <= m0 && #[trigger] converged(colors, k, m) && forall|j: nat|
                j < m ==> !#[trigger] converged(colors, k, j);
        assert(clustered(colors, k, means_iter(colors, k, m)));
    } else {
        let n = MAX_ROUNDS as nat;
        assert(forall|j: nat| j < n ==> !#[trigger] converged(colors, k, j));
        assert(clustered(colors, k, means_iter(colors, k, n)));
    }
    let r = cluster_result(colors, k);
    let n = choose|n: nat|
        {
            &&& r == means_iter(colors, k, n)
            &&& forall|m: nat| m < n ==> !#[trigger] converged(colors, k, m)
            &&& (converged(colors, k, n) || n == MAX_ROUNDS)
            &&& n <= MAX_ROUNDS
        };
    lemma_means_iter_len(colors, k, n);
}

/// Where some round before the cap reaches a fixed point, the result of
/// clustering is a fixed point: one more round (each color joining its
/// nearest centroid, each centroid becoming the mean of its members, gray
/// for none) gives it back.
pub proof fn cluster_result_fixed_point(colors: Seq<Rgb>, k: nat)
    requires
        exists|n: nat| n < MAX_ROUNDS && #[trigger] converged(colors, k, n),
    ensures
        means_step(colors, cluster_result(colors, k)) == cluster_result(colors, k),
{
    lemma_cluster_result(colors, k);
    let r = cluster_result(colors, k);
    let n = choose|n: nat|
        {
            &&& r == means_iter(colors, k, n)
            &&& forall|m: nat| m < n ==> !#[trigger] converged(colors, k, m)
            &&& (converged(colors, k, n) || n == MAX_ROUNDS)
            &&& n <= MAX_ROUNDS
        };
    let w = choose|w: nat| w < MAX_ROUNDS && #[trigger] converged(colors, k, w);
    if !converged(colors, k, n) {
        assert(!converged(colors, k, w));
    }
}

/// The two colors of a cell, where a fixed point is reached: each is the
/// mean of the colors nearest to it (the first on a tie), gray for none.
pub proof fn two_means_fixed_point(colors: Seq<Rgb>)
    requires
        exists|n: nat| n < MAX_ROUNDS && #[trigger] converged(colors, 2, n),
    ensures
        means_step(colors, two_means(colors)) == two_means(colors),
        two_means(colors).len() == 2,
{
    cluster_result_fixed_point(colors, 2);
    lemma_cluster_result(colors, 2);
}

} // verus!
