use dominant_colours::colour::Rgb;
use dominant_colours::terminal_colours::{
    ansi_colour_table, colour_distance, create_terminal_colour, nearest_colour,
};

fn float_distance(c1: [u8; 3], c2: [u8; 3]) -> f64 {
    let r = c1[0] as f64 - c2[0] as f64;
    let g = c1[1] as f64 - c2[1] as f64;
    let b = c1[2] as f64 - c2[2] as f64;
    let r_mean = (c1[0] as f64 + c2[0] as f64) / 2.0;
    (((512.0 + r_mean) * r * r) / 256.0 + 4.0 * g * g + ((767.0 - r_mean) * b * b) / 256.0).sqrt()
}

#[test]
fn the_table_holds_the_sixteen_ansi_colours() {
    let table = ansi_colour_table();
    assert_eq!(table.len(), 16);
    assert_eq!(table[0], Rgb::new(0, 0, 0));
    assert_eq!(table[1], Rgb::new(170, 0, 0));
    assert_eq!(table[3], Rgb::new(128, 128, 0));
    assert_eq!(table[8], Rgb::new(85, 85, 85));
    assert_eq!(table[11], Rgb::new(255, 255, 85));
    assert_eq!(table[15], Rgb::new(255, 255, 255));
}

#[test]
fn distance_is_the_weighted_square_times_512() {
    assert_eq!(colour_distance(&Rgb::new(1, 2, 3), &Rgb::new(1, 2, 3)), 0);
    // r = 255, reds = 255: (1024 + 255) * 65025
    assert_eq!(colour_distance(&Rgb::new(255, 0, 0), &Rgb::new(0, 0, 0)), 1279 * 65025);
    assert_eq!(colour_distance(&Rgb::new(0, 255, 0), &Rgb::new(0, 0, 0)), 2048 * 65025);
    assert_eq!(colour_distance(&Rgb::new(0, 0, 255), &Rgb::new(0, 0, 0)), 1534 * 65025);
    assert_eq!(
        colour_distance(&Rgb::new(255, 255, 255), &Rgb::new(0, 0, 0)),
        (1279 + 2048 + 1279) * 65025
    );
    assert_eq!(colour_distance(&Rgb::new(10, 20, 30), &Rgb::new(13, 18, 35)), 1047 * 9 + 2048 * 4 + 1511 * 25);
}

#[test]
fn distance_is_symmetric() {
    let a = Rgb::new(12, 200, 77);
    let b = Rgb::new(250, 3, 91);
    assert_eq!(colour_distance(&a, &b), colour_distance(&b, &a));
}

#[test]
fn distance_orders_colours_as_the_weighted_distance_does() {
    let colours: Vec<[u8; 3]> = (0..40u32)
        .map(|i| [(i * 37 % 256) as u8, (i * 91 % 256) as u8, (i * 53 % 256) as u8])
        .collect();
    for target in &colours {
        for a in &colours {
            for b in &colours {
                let exact_a = colour_distance(
                    &Rgb::new(target[0], target[1], target[2]),
                    &Rgb::new(a[0], a[1], a[2]),
                );
                let exact_b = colour_distance(
                    &Rgb::new(target[0], target[1], target[2]),
                    &Rgb::new(b[0], b[1], b[2]),
                );
                assert_eq!(
                    exact_a < exact_b,
                    float_distance(*target, *a) < float_distance(*target, *b)
                );
                let root = (exact_a as f64 / 512.0).sqrt();
                assert!((root - float_distance(*target, *a)).abs() < 1e-9);
            }
        }
    }
}

#[test]
fn nearest_colour_is_the_first_of_the_nearest() {
    let palette = vec![Rgb::new(10, 10, 10), Rgb::new(200, 0, 0), Rgb::new(10, 10, 10)];
    assert_eq!(nearest_colour(&palette, &Rgb::new(170, 0, 0)), Rgb::new(200, 0, 0));
    assert_eq!(nearest_colour(&palette, &Rgb::new(0, 0, 0)), Rgb::new(10, 10, 10));
    // (0, 0, 10) and (0, 0, 30) are equally far from (0, 0, 20): the first wins.
    let ties = vec![Rgb::new(0, 0, 30), Rgb::new(0, 0, 10)];
    assert_eq!(nearest_colour(&ties, &Rgb::new(0, 0, 20)), Rgb::new(0, 0, 30));
}

#[test]
fn an_empty_palette_gives_black_sixteen_times() {
    let out = create_terminal_colour(Vec::new());
    assert_eq!(out, vec![Rgb::new(0, 0, 0); 16]);
}

#[test]
fn a_single_colour_stands_for_every_ansi_colour() {
    let out = create_terminal_colour(vec![Rgb::new(1, 2, 3)]);
    assert_eq!(out, vec![Rgb::new(1, 2, 3); 16]);
}

#[test]
fn each_ansi_colour_gets_its_nearest_palette_colour() {
    let red = Rgb::new(250, 10, 10);
    let green = Rgb::new(10, 250, 10);
    let blue = Rgb::new(10, 10, 250);
    let dark = Rgb::new(5, 5, 5);
    let light = Rgb::new(250, 250, 250);
    let out = create_terminal_colour(vec![red, green, blue, dark, light]);
    assert_eq!(out.len(), 16);
    assert_eq!(out[0], dark);
    assert_eq!(out[1], red);
    assert_eq!(out[2], green);
    assert_eq!(out[4], blue);
    assert_eq!(out[9], red);
    assert_eq!(out[10], green);
    assert_eq!(out[12], blue);
    assert_eq!(out[15], light);
}

#[test]
fn terminal_colours_agree_with_the_weighted_distance() {
    let palette: Vec<Rgb> = (0..25u32)
        .map(|i| Rgb::new((i * 37 % 256) as u8, (i * 91 % 256) as u8, (i * 53 % 256) as u8))
        .collect();
    let out = create_terminal_colour(palette.clone());
    let table = ansi_colour_table();
    for (target, chosen) in table.iter().zip(out.iter()) {
        let mut smallest = f64::MAX;
        let mut closest = Rgb::new(0, 0, 0);
        for colour in &palette {
            let d = float_distance(
                [target.red, target.green, target.blue],
                [colour.red, colour.green, colour.blue],
            );
            if d < smallest {
                smallest = d;
                closest = *colour;
            }
        }
        assert_eq!(*chosen, closest);
    }
}
