//! The dominant colours of a set of samples, and the one among them that
//! stands out best on a background.
use crate::colour::Rgb;
use vstd::prelude::*;

verus! {

/// How the clustering is run.
#[derive(Clone, Copy, Debug)]
pub struct KmeansConfig {
    /// The cap on the rounds of the clustering.
    pub max_iterations: usize,
    /// The clustering stops early once the moves of the centroids in a
    /// round, added up, have a squared length of at most this.
    pub convergence: u16,
    /// Seeds the random choices of the clustering, the first centroids among
    /// them.
    pub seed: u64,
}

impl KmeansConfig {
    /// A cap of twenty rounds, a threshold of one, the seed zero.
    pub open spec fn spec_default() -> KmeansConfig {
        KmeansConfig { max_iterations: 20, convergence: 1, seed: 0 }
    }
}

impl Default for KmeansConfig {
    fn default() -> (out: KmeansConfig)
        ensures
            out == KmeansConfig::spec_default(),
    {
        KmeansConfig { max_iterations: 20, convergence: 1, seed: 0 }
    }
}

/// The centroids that `kmeans_colors::get_kmeans_hamerly` finds.
pub uninterp spec fn kmeans_centroids(
    k: usize,
    max_iterations: usize,
    convergence: u16,
    samples: Seq<palette::Lab>,
    seed: u64,
) -> Seq<palette::Lab>;

/// Calls `kmeans_colors::get_kmeans_hamerly` without its progress output and
/// hands back the centroids of its result. The random choices of that
/// function are drawn from a generator that it seeds with `seed`, so the
/// centroids depend on the arguments alone. Its k-means++ start takes one
/// sample as the first centroid and at most `k - 1` more, and no round adds
/// or drops one. It panics on no samples and on `k == 0`, and it sets aside
/// room for `k` centroids before it looks at the samples, so it is asked for
/// no more clusters than there are samples. The generator draws the places
/// of samples as `usize`, so the centroids are those of machines of this
/// pointer width.
#[verifier::external_body]
fn kmeans_hamerly(k: usize, config: &KmeansConfig, samples: &Vec<palette::Lab>) -> (centroids: Vec<
    palette::Lab,
>)
    requires
        1 <= k <= samples@.len(),
    ensures
        centroids@ == kmeans_centroids(
            k,
            config.max_iterations,
            config.convergence,
            samples@,
            config.seed,
        ),
        1 <= centroids@.len() <= k,
{
    kmeans_colors::get_kmeans_hamerly(
        k,
        config.max_iterations,
        config.convergence.into(),
        false,
        samples,
        config.seed,
    ).centroids
}

/// How many clusters are asked for: as many as the caller allows, and no
/// more than there are samples.
pub open spec fn cluster_count(samples: Seq<palette::Lab>, max_colors: usize) -> usize {
    if max_colors <= samples.len() {
        max_colors
    } else {
        samples.len() as usize
    }
}

/// The centroids of the samples under a configuration.
pub open spec fn centroids_of(
    samples: Seq<palette::Lab>,
    max_colors: usize,
    config: KmeansConfig,
) -> Seq<palette::Lab> {
    kmeans_centroids(
        cluster_count(samples, max_colors),
        config.max_iterations,
        config.convergence,
        samples,
        config.seed,
    )
}

/// The centroids of the samples under the default configuration.
pub open spec fn dominant_centroids(samples: Seq<palette::Lab>, max_colors: usize) -> Seq<
    palette::Lab,
> {
    centroids_of(samples, max_colors, KmeansConfig::spec_default())
}

/// Clusters the samples into at most `max_colors` groups and hands back the
/// centroid of each, in the order in which the clustering holds them.
pub fn find_dominant_colors_with(
    lab: &Vec<palette::Lab>,
    max_colors: usize,
    config: &KmeansConfig,
) -> (centroids: Vec<palette::Lab>)
    requires
        lab@.len() > 0,
        max_colors >= 1,
    ensures
        centroids@ == centroids_of(lab@, max_colors, *config),
        1 <= centroids@.len() <= max_colors,
        centroids@.len() <= lab@.len(),
{
    let k = if max_colors <= lab.len() {
        max_colors
    } else {
        lab.len()
    };
    kmeans_hamerly(k, config, lab)
}

/// Clusters the samples into at most `max_colors` groups, with at most
/// twenty rounds, a convergence threshold of one and the seed zero.
pub fn find_dominant_colors(lab: &Vec<palette::Lab>, max_colors: usize) -> (centroids: Vec<
    palette::Lab,
>)
    requires
        lab@.len() > 0,
        max_colors >= 1,
    ensures
        centroids@ == dominant_centroids(lab@, max_colors),
        1 <= centroids@.len() <= max_colors,
        centroids@.len() <= lab@.len(),
{
    let config = KmeansConfig::default();
    find_dominant_colors_with(lab, max_colors, &config)
}

/// Two runs on the same samples, with the same bound and configuration, end
/// in the same centroids.
pub proof fn lemma_clustering_is_deterministic(
    samples: Seq<palette::Lab>,
    max_colors: usize,
    config: KmeansConfig,
    first: Seq<palette::Lab>,
    second: Seq<palette::Lab>,
)
    requires
        first == centroids_of(samples, max_colors, config),
        second == centroids_of(samples, max_colors, config),
    ensures
        first == second,
{
}

/// The largest of the three channels.
pub open spec fn channel_max(c: Rgb) -> int {
    if c.red >= c.green && c.red >= c.blue {
        c.red as int
    } else if c.green >= c.blue {
        c.green as int
    } else {
        c.blue as int
    }
}

/// The smallest of the three channels.
pub open spec fn channel_min(c: Rgb) -> int {
    if c.red <= c.green && c.red <= c.blue {
        c.red as int
    } else if c.green <= c.blue {
        c.green as int
    } else {
        c.blue as int
    }
}

/// The numerator of the HSL saturation, in 255ths: the spread of the channels.
pub open spec fn saturation_numerator(c: Rgb) -> int {
    channel_max(c) - channel_min(c)
}

/// The denominator of the HSL saturation, in 255ths: `1 - |2L - 1|` for the
/// lightness `L = (max + min) / 2`, and one for a grey, whose saturation is
/// zero.
pub open spec fn saturation_denominator(c: Rgb) -> int {
    let sum = channel_max(c) + channel_min(c);
    if channel_max(c) == channel_min(c) {
        1
    } else if sum >= 255 {
        510 - sum
    } else {
        sum
    }
}

/// `a` is at most as saturated as `b`: the two fractions compared exactly.
pub open spec fn saturation_le(a: Rgb, b: Rgb) -> bool {
    saturation_numerator(a) * saturation_denominator(b) <= saturation_numerator(b)
        * saturation_denominator(a)
}

/// The HSL saturation of a colour as an exact fraction.
#[derive(Clone, Copy, Debug)]
pub struct Saturation {
    pub numerator: u16,
    pub denominator: u16,
}

impl Saturation {
    /// The fraction lies between zero and one and its denominator is not
    /// zero.
    pub open spec fn wf(self) -> bool {
        1 <= self.denominator <= 255 && self.numerator <= self.denominator
    }

    /// This fraction is at most `other`.
    pub open spec fn spec_le(self, other: Saturation) -> bool {
        self.numerator * other.denominator <= other.numerator * self.denominator
    }

    /// Whether this saturation is at most `other`.
    pub fn le(&self, other: &Saturation) -> (out: bool)
        requires
            self.wf(),
            other.wf(),
        ensures
            out == self.spec_le(*other),
    {
        assert(self.numerator * other.denominator <= 255 * 255 && other.numerator
            * self.denominator <= 255 * 255) by (nonlinear_arith)
            requires
                self.numerator <= 255,
                other.numerator <= 255,
                self.denominator <= 255,
                other.denominator <= 255,
        ;
        (self.numerator as u32) * (other.denominator as u32) <= (other.numerator as u32) * (
        self.denominator as u32)
    }
}

/// The saturation of a colour lies between zero and one, and is zero exactly
/// for the greys.
pub proof fn lemma_saturation_range(c: Rgb)
    ensures
        0 <= saturation_numerator(c) <= saturation_denominator(c),
        1 <= saturation_denominator(c) <= 255,
        saturation_numerator(c) == 0 <==> (c.red == c.green && c.green == c.blue),
{
}

/// Of any two colours one is at most as saturated as the other.
pub proof fn lemma_saturation_total(a: Rgb, b: Rgb)
    ensures
        saturation_le(a, b) || saturation_le(b, a),
{
}

/// The order by saturation is transitive.
pub proof fn lemma_saturation_transitive(a: Rgb, b: Rgb, c: Rgb)
    requires
        saturation_le(a, b),
        saturation_le(b, c),
    ensures
        saturation_le(a, c),
{
    lemma_saturation_range(a);
    lemma_saturation_range(b);
    lemma_saturation_range(c);
    lemma_fraction_order(
        saturation_numerator(a),
        saturation_denominator(a),
        saturation_numerator(b),
        saturation_denominator(b),
        saturation_numerator(c),
        saturation_denominator(c),
    );
}

/// Fractions with positive denominators, compared by cross-multiplication,
/// are ordered transitively.
proof fn lemma_fraction_order(n1: int, d1: int, n2: int, d2: int, n3: int, d3: int)
    by (nonlinear_arith)
    requires
        0 <= n1,
        0 <= n2,
        0 <= n3,
        0 < d1,
        0 < d2,
        0 < d3,
        n1 * d2 <= n2 * d1,
        n2 * d3 <= n3 * d2,
    ensures
        n1 * d3 <= n3 * d1,
{
    assert(n1 * d2 * d3 <= n2 * d1 * d3);
    assert(n2 * d3 * d1 <= n3 * d2 * d1);
    assert(n1 * d3 * d2 <= n3 * d1 * d2);
}

/// The HSL saturation of a colour: the spread of its channels over
/// `1 - |2L - 1|`, where `L` is the mean of the largest and the smallest
/// channel; zero for a grey, white and black among them.
pub fn saturation(c: &Rgb) -> (s: Saturation)
    ensures
        s.numerator == saturation_numerator(*c),
        s.denominator == saturation_denominator(*c),
        s.wf(),
{
    let max_rgb: u8 = if c.red >= c.green && c.red >= c.blue {
        c.red
    } else if c.green >= c.blue {
        c.green
    } else {
        c.blue
    };
    let min_rgb: u8 = if c.red <= c.green && c.red <= c.blue {
        c.red
    } else if c.green <= c.blue {
        c.green
    } else {
        c.blue
    };
    if min_rgb == max_rgb {
        return Saturation { numerator: 0, denominator: 1 };
    }
    let sum: u16 = max_rgb as u16 + min_rgb as u16;
    let denominator: u16 = if sum >= 255 {
        510 - sum
    } else {
        sum
    };
    Saturation { numerator: (max_rgb - min_rgb) as u16, denominator }
}

/// Whether `a` is at most as saturated as `b`.
pub fn less_or_equally_saturated(a: &Rgb, b: &Rgb) -> (out: bool)
    ensures
        out == saturation_le(*a, *b),
{
    saturation(a).le(&saturation(b))
}

/// Whether `colour` has, on `background`, the contrast that WCAG 2.1 asks of
/// body text (success criterion 1.4.3): a ratio of relative luminances of at
/// least 4.5 to 1, as `palette` computes it.
pub uninterp spec fn min_contrast(background: Rgb, colour: Rgb) -> bool;

/// Calls `Wcag21RelativeContrast::has_min_contrast_text` of `palette` on the
/// two colours, each scaled to the unit interval by `Srgb::into_format`. The
/// answer depends on the two colours alone. The test asks that the lighter of
/// two relative luminances plus 0.05 be at least 4.5 times the darker plus
/// 0.05. Black has the luminance zero and white the luminance one, so the
/// ratios of a background with black and with white multiply to 21, and one
/// of them is above 4.5: where a colour fails the test on a background,
/// black or white passes it.
#[verifier::external_body]
fn has_min_contrast(background: &Rgb, colour: &Rgb) -> (legible: bool)
    ensures
        legible == min_contrast(*background, *colour),
        legible || min_contrast(*background, Rgb::spec_black()) || min_contrast(
            *background,
            Rgb::spec_white(),
        ),
{
    let on: palette::Srgb = palette::Srgb::new(
        background.red,
        background.green,
        background.blue,
    ).into_format();
    let of: palette::Srgb = palette::Srgb::new(colour.red, colour.green, colour.blue).into_format();
    palette::color_difference::Wcag21RelativeContrast::has_min_contrast_text(on, of)
}

/// The candidates for a background: the given colours, then black, then
/// white.
pub open spec fn with_extremes(colors: Seq<Rgb>) -> Seq<Rgb> {
    colors.push(Rgb::spec_black()).push(Rgb::spec_white())
}

/// Which of the candidates are legible on the background.
pub open spec fn legible(candidates: Seq<Rgb>, background: Rgb) -> Seq<bool> {
    Seq::new(candidates.len(), |i: int| min_contrast(background, candidates[i]))
}

/// `best` is the place of the winner: it is allowed, no allowed candidate is
/// more saturated, and every allowed one after it is less saturated. Among
/// equally saturated candidates the last one wins.
pub open spec fn is_most_saturated(candidates: Seq<Rgb>, allowed: Seq<bool>, best: int) -> bool {
    &&& 0 <= best < candidates.len()
    &&& allowed[best]
    &&& forall|j: int|
        0 <= j < candidates.len() && allowed[j] ==> saturation_le(
            #[trigger] candidates[j],
            candidates[best],
        )
    &&& forall|j: int|
        best < j < candidates.len() && allowed[j] ==> !saturation_le(
            candidates[best],
            #[trigger] candidates[j],
        )
}

/// At most one place is the winner's.
pub proof fn lemma_most_saturated_unique(
    candidates: Seq<Rgb>,
    allowed: Seq<bool>,
    first: int,
    second: int,
)
    requires
        candidates.len() == allowed.len(),
        is_most_saturated(candidates, allowed, first),
        is_most_saturated(candidates, allowed, second),
    ensures
        first == second,
{
    if first < second {
        assert(saturation_le(candidates[first], candidates[second]));
        assert(!saturation_le(candidates[first], candidates[second]));
    } else if second < first {
        assert(saturation_le(candidates[second], candidates[first]));
        assert(!saturation_le(candidates[second], candidates[first]));
    }
}

/// The place of the winner among the first `upto` candidates, found one
/// candidate after the other: an allowed candidate takes the place of the
/// winner so far where it is at least as saturated.
pub open spec fn winner(candidates: Seq<Rgb>, allowed: Seq<bool>, upto: int) -> Option<int>
    decreases upto,
{
    if upto <= 0 {
        None
    } else {
        let last = upto - 1;
        match winner(candidates, allowed, last) {
            Some(before) => if allowed[last] && saturation_le(
                candidates[before],
                candidates[last],
            ) {
                Some(last)
            } else {
                Some(before)
            },
            None => if allowed[last] {
                Some(last)
            } else {
                None
            },
        }
    }
}

/// What is found one candidate after the other is the winner among the
/// first `upto` candidates; nothing is found only where none of them is
/// allowed.
pub proof fn lemma_winner(candidates: Seq<Rgb>, allowed: Seq<bool>, upto: int)
    requires
        candidates.len() == allowed.len(),
        0 <= upto <= candidates.len(),
    ensures
        match winner(candidates, allowed, upto) {
            Some(best) => is_most_saturated(candidates.take(upto), allowed.take(upto), best),
            None => forall|j: int| 0 <= j < upto ==> !allowed[j],
        },
    decreases upto,
{
    if upto > 0 {
        let last = upto - 1;
        lemma_winner(candidates, allowed, last);
        let before = winner(candidates, allowed, last);
        let seen = candidates.take(last);
        let seen_ok = allowed.take(last);
        let next = candidates.take(upto);
        let next_ok = allowed.take(upto);
        if winner(candidates, allowed, upto) is Some {
            let best = winner(candidates, allowed, upto).unwrap();
            lemma_saturation_total(candidates[last], candidates[last]);
            if before is Some {
                lemma_saturation_total(candidates[before.unwrap()], candidates[last]);
            }
            assert forall|j: int| 0 <= j < next.len() && next_ok[j] implies saturation_le(
                #[trigger] next[j],
                next[best],
            ) by {
                if j < last {
                    let b = before.unwrap();
                    assert(seen_ok[j]);
                    assert(saturation_le(seen[j], seen[b]));
                    if best == last {
                        lemma_saturation_transitive(next[j], next[b], next[last]);
                    }
                }
            }
            assert forall|j: int| best < j < next.len() && next_ok[j] implies !saturation_le(
                next[best],
                #[trigger] next[j],
            ) by {
                if j < last {
                    assert(seen_ok[j]);
                    assert(!saturation_le(seen[best], seen[j]));
                }
            }
        }
    }
}

/// Where any candidate is allowed, one of them is the winner.
pub proof fn lemma_most_saturated_exists(candidates: Seq<Rgb>, allowed: Seq<bool>)
    requires
        candidates.len() == allowed.len(),
        exists|j: int| 0 <= j < allowed.len() && allowed[j],
    ensures
        exists|i: int| is_most_saturated(candidates, allowed, i),
{
    lemma_winner(candidates, allowed, candidates.len() as int);
    assert(candidates.take(candidates.len() as int) =~= candidates);
    assert(allowed.take(allowed.len() as int) =~= allowed);
}

/// The place of the most saturated of the allowed candidates, the last of
/// them where several are equally saturated; `None` where none is allowed.
pub fn most_saturated(candidates: &Vec<Rgb>, allowed: &Vec<bool>) -> (best: Option<usize>)
    requires
        candidates@.len() == allowed@.len(),
    ensures
        match best {
            Some(i) => is_most_saturated(candidates@, allowed@, i as int),
            None => forall|j: int| 0 <= j < allowed@.len() ==> !allowed@[j],
        },
{
    let mut best: Option<usize> = None;
    let mut i: usize = 0;
    while i < candidates.len()
        invariant
            i <= candidates@.len(),
            candidates@.len() == allowed@.len(),
            match best {
                Some(b) => b < i && winner(candidates@, allowed@, i as int) == Some(b as int),
                None => winner(candidates@, allowed@, i as int) is None,
            },
        decreases candidates@.len() - i,
    {
        if allowed[i] {
            let replace = match best {
                Some(b) => less_or_equally_saturated(&candidates[b], &candidates[i]),
                None => true,
            };
            if replace {
                best = Some(i);
            }
        }
        i = i + 1;
    }
    proof {
        lemma_winner(candidates@, allowed@, i as int);
        assert(candidates@.take(i as int) =~= candidates@);
        assert(allowed@.take(i as int) =~= allowed@);
    }
    best
}

/// The winner among the given colours, black and white on a background,
/// where any of them is legible on it.
pub open spec fn best_colour(colors: Seq<Rgb>, background: Rgb) -> Option<Rgb> {
    let candidates = with_extremes(colors);
    let allowed = legible(candidates, background);
    if exists|i: int| is_most_saturated(candidates, allowed, i) {
        Some(candidates[choose|i: int| is_most_saturated(candidates, allowed, i)])
    } else {
        None
    }
}

/// Black and white see to it that a colour is chosen: where either of them
/// is legible on the background, one of the candidates wins, and the winner
/// is legible.
pub proof fn lemma_extremes_suffice(colors: Seq<Rgb>, background: Rgb)
    requires
        min_contrast(background, Rgb::spec_black()) || min_contrast(
            background,
            Rgb::spec_white(),
        ),
    ensures
        best_colour(colors, background) matches Some(colour) && min_contrast(background, colour),
{
    let candidates = with_extremes(colors);
    let allowed = legible(candidates, background);
    let black = colors.len() as int;
    let white = black + 1;
    assert(candidates[black] == Rgb::spec_black() && candidates[white] == Rgb::spec_white());
    assert(allowed[black] || allowed[white]);
    lemma_most_saturated_exists(candidates, allowed);
    let chosen = choose|i: int| is_most_saturated(candidates, allowed, i);
    assert(allowed[chosen]);
}

/// The colour that stands out best on `background`. Black and white join the
/// given colours as candidates; those whose contrast with the background
/// falls short of 4.5 to 1 (WCAG 2.1, body text) are set aside; of the rest
/// the most saturated is handed back, the last of them where several are
/// equally saturated. There is always one: black or white is legible on
/// every background.
pub fn choose_best_color_for_bg(colors: Vec<Rgb>, background: &Rgb) -> (best: Rgb)
    ensures
        best_colour(colors@, *background) == Some(best),
        with_extremes(colors@).contains(best),
        min_contrast(*background, best),
        forall|j: int|
            0 <= j < with_extremes(colors@).len() && min_contrast(
                *background,
                #[trigger] with_extremes(colors@)[j],
            ) ==> saturation_le(with_extremes(colors@)[j], best),
{
    let mut candidates = colors;
    candidates.push(Rgb::black());
    candidates.push(Rgb::white());
    assert(candidates@ =~= with_extremes(colors@));
    let mut allowed: Vec<bool> = Vec::new();
    let mut i: usize = 0;
    while i < candidates.len()
        invariant
            i <= candidates@.len(),
            allowed@.len() == i,
            forall|j: int| 0 <= j < i ==> allowed@[j] == min_contrast(*background, candidates@[j]),
            i >= 1 ==> min_contrast(*background, candidates@[0]) || min_contrast(
                *background,
                Rgb::spec_black(),
            ) || min_contrast(*background, Rgb::spec_white()),
        decreases candidates@.len() - i,
    {
        allowed.push(has_min_contrast(background, &candidates[i]));
        i = i + 1;
    }
    assert(allowed@ =~= legible(candidates@, *background));
    let ghost all = with_extremes(colors@);
    let ghost ok = legible(all, *background);
    proof {
        let black = colors@.len() as int;
        assert(all[black] == Rgb::spec_black() && all[black + 1] == Rgb::spec_white());
        assert(ok[0] == min_contrast(*background, all[0]));
        assert(ok[black] || ok[black + 1] || ok[0]);
    }
    match most_saturated(&candidates, &allowed) {
        Some(place) => {
            let best = candidates[place];
            proof {
                assert(is_most_saturated(all, ok, place as int));
                assert(all[place as int] == best);
                let chosen = choose|i: int| is_most_saturated(all, ok, i);
                lemma_most_saturated_unique(all, ok, chosen, place as int);
                assert(ok[place as int] == min_contrast(*background, all[place as int]));
                assert forall|j: int|
                    0 <= j < all.len() && min_contrast(
                        *background,
                        #[trigger] all[j],
                    ) implies saturation_le(all[j], best) by {
                    assert(ok[j]);
                }
            }
            best
        },
        None => vstd::pervasive::unreached(),
    }
}

} // verus!
