//! The sixteen colours of a terminal, each stood for by the nearest colour
//! of a palette.
use crate::colour::Rgb;
use vstd::prelude::*;

verus! {

/// The sixteen ANSI colours: the eight darker ones, then the eight lighter
/// ones.
pub open spec fn ansi_colours() -> Seq<Rgb> {
    seq![
        Rgb { red: 0, green: 0, blue: 0 },
        Rgb { red: 170, green: 0, blue: 0 },
        Rgb { red: 0, green: 170, blue: 0 },
        Rgb { red: 128, green: 128, blue: 0 },
        Rgb { red: 0, green: 0, blue: 170 },
        Rgb { red: 170, green: 0, blue: 170 },
        Rgb { red: 0, green: 170, blue: 170 },
        Rgb { red: 170, green: 170, blue: 170 },
        Rgb { red: 85, green: 85, blue: 85 },
        Rgb { red: 255, green: 85, blue: 85 },
        Rgb { red: 85, green: 255, blue: 85 },
        Rgb { red: 255, green: 255, blue: 85 },
        Rgb { red: 85, green: 85, blue: 255 },
        Rgb { red: 255, green: 85, blue: 255 },
        Rgb { red: 85, green: 255, blue: 255 },
        Rgb { red: 255, green: 255, blue: 255 },
    ]
}

/// The sixteen ANSI colours.
pub fn ansi_colour_table() -> (table: Vec<Rgb>)
    ensures
        table@ == ansi_colours(),
{
    let table = vec![
        Rgb { red: 0, green: 0, blue: 0 },
        Rgb { red: 170, green: 0, blue: 0 },
        Rgb { red: 0, green: 170, blue: 0 },
        Rgb { red: 128, green: 128, blue: 0 },
        Rgb { red: 0, green: 0, blue: 170 },
        Rgb { red: 170, green: 0, blue: 170 },
        Rgb { red: 0, green: 170, blue: 170 },
        Rgb { red: 170, green: 170, blue: 170 },
        Rgb { red: 85, green: 85, blue: 85 },
        Rgb { red: 255, green: 85, blue: 85 },
        Rgb { red: 85, green: 255, blue: 85 },
        Rgb { red: 255, green: 255, blue: 85 },
        Rgb { red: 85, green: 85, blue: 255 },
        Rgb { red: 255, green: 85, blue: 255 },
        Rgb { red: 85, green: 255, blue: 255 },
        Rgb { red: 255, green: 255, blue: 255 },
    ];
    assert(table@ =~= ansi_colours());
    table
}

/// How far two colours are apart to the eye, as 512 times the square of the
/// weighted distance `sqrt((512 + m) r^2 / 256 + 4 g^2 + (767 - m) b^2 / 256)`
/// with the channel differences `r`, `g`, `b` and the mean `m` of the two
/// reds. Squares and a common factor keep the order of the distances and
/// make them whole numbers.
pub open spec fn distance(c1: Rgb, c2: Rgb) -> int {
    let r = c1.red - c2.red;
    let g = c1.green - c2.green;
    let b = c1.blue - c2.blue;
    let reds = c1.red + c2.red;
    (1024 + reds) * (r * r) + 2048 * (g * g) + (1534 - reds) * (b * b)
}

/// The distance of two colours; see [`distance`].
pub fn colour_distance(c1: &Rgb, c2: &Rgb) -> (d: u64)
    ensures
        d == distance(*c1, *c2),
        d <= 5116 * 65025,
{
    let r: u64 = if c1.red >= c2.red {
        (c1.red - c2.red) as u64
    } else {
        (c2.red - c1.red) as u64
    };
    let g: u64 = if c1.green >= c2.green {
        (c1.green - c2.green) as u64
    } else {
        (c2.green - c1.green) as u64
    };
    let b: u64 = if c1.blue >= c2.blue {
        (c1.blue - c2.blue) as u64
    } else {
        (c2.blue - c1.blue) as u64
    };
    let reds: u64 = c1.red as u64 + c2.red as u64;
    proof {
        lemma_square(c1.red - c2.red, r as int);
        lemma_square(c1.green - c2.green, g as int);
        lemma_square(c1.blue - c2.blue, b as int);
    }
    let rr: u64 = r * r;
    let gg: u64 = g * g;
    let bb: u64 = b * b;
    assert((1024 + reds) * rr <= 1534 * 65025 && (1534 - reds) * bb <= 1534 * 65025)
        by (nonlinear_arith)
        requires
            reds <= 510,
            rr <= 65025,
            bb <= 65025,
    ;
    (1024 + reds) * rr + 2048 * gg + (1534 - reds) * bb
}

/// No colour is apart from itself, and two colours are as far apart one way
/// as the other.
pub proof fn lemma_distance_metric(c1: Rgb, c2: Rgb)
    ensures
        distance(c1, c1) == 0,
        distance(c1, c2) == distance(c2, c1),
        distance(c1, c2) >= 0,
{
    assert(distance(c1, c1) == 0) by (nonlinear_arith);
    assert(distance(c1, c2) == distance(c2, c1)) by (nonlinear_arith);
    assert(distance(c1, c2) >= 0) by (nonlinear_arith);
}

/// A difference and its size have the same square, which is at most `255^2`
/// for channels.
proof fn lemma_square(d: int, size: int)
    by (nonlinear_arith)
    requires
        size == d || size == -d,
        0 <= size <= 255,
    ensures
        size * size == d * d,
        size * size <= 65025,
{
}

/// The colour at `at` is the nearest to `target`, and the first of those
/// that are equally near.
pub open spec fn is_nearest(colours: Seq<Rgb>, target: Rgb, at: int) -> bool {
    &&& 0 <= at < colours.len()
    &&& forall|j: int|
        0 <= j < colours.len() ==> distance(target, colours[at]) <= distance(
            target,
            #[trigger] colours[j],
        )
    &&& forall|j: int|
        0 <= j < at ==> distance(target, colours[at]) < distance(target, #[trigger] colours[j])
}

/// The colour of the palette that stands for `target`: the nearest one, the
/// first of those equally near, and black for an empty palette.
pub open spec fn stands_for(colours: Seq<Rgb>, target: Rgb, chosen: Rgb) -> bool {
    if colours.len() == 0 {
        chosen == Rgb::spec_black()
    } else {
        exists|at: int| is_nearest(colours, target, at) && chosen == #[trigger] colours[at]
    }
}

/// At most one place is that of the nearest colour.
pub proof fn lemma_nearest_unique(colours: Seq<Rgb>, target: Rgb, first: int, second: int)
    requires
        is_nearest(colours, target, first),
        is_nearest(colours, target, second),
    ensures
        first == second,
{
    if first < second {
        assert(distance(target, colours[second]) < distance(target, colours[first]));
        assert(distance(target, colours[first]) <= distance(target, colours[second]));
    } else if second < first {
        assert(distance(target, colours[first]) < distance(target, colours[second]));
        assert(distance(target, colours[second]) <= distance(target, colours[first]));
    }
}

/// The colour of the palette nearest to `target`, the first of those equally
/// near; black for an empty palette.
pub fn nearest_colour(colours: &Vec<Rgb>, target: &Rgb) -> (chosen: Rgb)
    ensures
        stands_for(colours@, *target, chosen),
{
    if colours.len() == 0 {
        return Rgb::black();
    }
    let mut at: usize = 0;
    let mut smallest = colour_distance(target, &colours[0]);
    let mut i: usize = 1;
    while i < colours.len()
        invariant
            1 <= i <= colours@.len(),
            at < i,
            smallest == distance(*target, colours@[at as int]),
            forall|j: int|
                0 <= j < i ==> distance(*target, colours@[at as int]) <= distance(
                    *target,
                    #[trigger] colours@[j],
                ),
            forall|j: int|
                0 <= j < at ==> distance(*target, colours@[at as int]) < distance(
                    *target,
                    #[trigger] colours@[j],
                ),
        decreases colours@.len() - i,
    {
        let d = colour_distance(target, &colours[i]);
        if d < smallest {
            smallest = d;
            at = i;
        }
        i = i + 1;
    }
    assert(is_nearest(colours@, *target, at as int));
    colours[at]
}

/// For each of the sixteen ANSI colours, in their order, the colour of the
/// palette that is nearest to it.
pub fn create_terminal_colour(colours: Vec<Rgb>) -> (out: Vec<Rgb>)
    ensures
        out@.len() == 16,
        forall|t: int| 0 <= t < 16 ==> stands_for(colours@, ansi_colours()[t], #[trigger] out@[t]),
{
    let table = ansi_colour_table();
    let mut out: Vec<Rgb> = Vec::new();
    let mut t: usize = 0;
    while t < 16
        invariant
            t <= 16,
            table@ == ansi_colours(),
            out@.len() == t,
            forall|u: int|
                0 <= u < t ==> stands_for(colours@, ansi_colours()[u], #[trigger] out@[u]),
        decreases 16 - t,
    {
        out.push(nearest_colour(&colours, &table[t]));
        t = t + 1;
    }
    out
}

} // verus!
