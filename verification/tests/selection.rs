use dominant_colours::colour::Rgb;
use dominant_colours::find_dominant_colors::{
    choose_best_color_for_bg, less_or_equally_saturated, most_saturated, saturation,
};

fn float_saturation(c: &Rgb) -> f64 {
    let channels = [c.red as f64 / 255.0, c.green as f64 / 255.0, c.blue as f64 / 255.0];
    let min = channels.iter().cloned().fold(f64::MAX, f64::min);
    let max = channels.iter().cloned().fold(f64::MIN, f64::max);
    if min == max {
        return 0.0;
    }
    let luminosity = 0.5 * (min + max);
    if luminosity == 1.0 {
        0.0
    } else {
        (max - min) / (1.0 - (2.0 * luminosity - 1.0).abs())
    }
}

#[test]
fn greys_have_no_saturation() {
    for n in [0u8, 1, 127, 128, 254, 255] {
        let s = saturation(&Rgb::new(n, n, n));
        assert_eq!((s.numerator, s.denominator), (0, 1));
    }
}

#[test]
fn pure_colours_are_fully_saturated() {
    for c in [Rgb::new(255, 0, 0), Rgb::new(0, 255, 0), Rgb::new(0, 0, 255), Rgb::new(255, 255, 0)]
    {
        let s = saturation(&c);
        assert_eq!((s.numerator, s.denominator), (255, 255));
    }
}

#[test]
fn saturation_is_the_spread_over_one_minus_the_lightness_offset() {
    // max = 200, min = 100: spread 100, max + min = 300 >= 255, so 510 - 300.
    let s = saturation(&Rgb::new(200, 100, 150));
    assert_eq!((s.numerator, s.denominator), (100, 210));
    // max = 80, min = 20: spread 60, max + min = 100 < 255.
    let s = saturation(&Rgb::new(20, 80, 50));
    assert_eq!((s.numerator, s.denominator), (60, 100));
    // Almost white and almost black.
    let s = saturation(&Rgb::new(255, 255, 254));
    assert_eq!((s.numerator, s.denominator), (1, 1));
    let s = saturation(&Rgb::new(0, 1, 0));
    assert_eq!((s.numerator, s.denominator), (1, 1));
    // #d4fb79 and #693900.
    let s = saturation(&Rgb::new(0xd4, 0xfb, 0x79));
    assert_eq!((s.numerator, s.denominator), (130, 138));
    let s = saturation(&Rgb::new(0x69, 0x39, 0x00));
    assert_eq!((s.numerator, s.denominator), (105, 105));
}

#[test]
fn saturation_agrees_with_the_formula_in_floating_point() {
    for i in 0..4000u32 {
        let c = Rgb::new((i * 37 % 256) as u8, (i * 91 % 256) as u8, (i * 53 % 256) as u8);
        let s = saturation(&c);
        assert!(s.denominator >= 1 && s.numerator <= s.denominator);
        let exact = s.numerator as f64 / s.denominator as f64;
        assert!((exact - float_saturation(&c)).abs() < 1e-9);
    }
}

#[test]
fn order_by_saturation_compares_the_fractions() {
    let grey = Rgb::new(128, 128, 128);
    let green = Rgb::new(0, 200, 0);
    let dull = Rgb::new(100, 120, 100);
    assert!(less_or_equally_saturated(&grey, &green));
    assert!(!less_or_equally_saturated(&green, &grey));
    assert!(less_or_equally_saturated(&dull, &green));
    assert!(less_or_equally_saturated(&grey, &dull));
    assert!(less_or_equally_saturated(&green, &green));
    // 1/3 and 2/6 are the same saturation.
    let a = Rgb::new(10, 20, 20);
    let b = Rgb::new(20, 40, 40);
    assert!(less_or_equally_saturated(&a, &b) && less_or_equally_saturated(&b, &a));
}

#[test]
fn most_saturated_of_the_allowed_wins() {
    let candidates = vec![Rgb::new(128, 128, 128), Rgb::new(0, 200, 0), Rgb::new(255, 0, 0)];
    assert_eq!(most_saturated(&candidates, &vec![true, true, true]), Some(2));
    assert_eq!(most_saturated(&candidates, &vec![true, true, false]), Some(1));
    assert_eq!(most_saturated(&candidates, &vec![true, false, false]), Some(0));
    assert_eq!(most_saturated(&candidates, &vec![false, false, false]), None);
    assert_eq!(most_saturated(&Vec::new(), &Vec::new()), None);
}

#[test]
fn last_of_the_equally_saturated_wins() {
    let candidates = vec![
        Rgb::new(255, 0, 0),
        Rgb::new(0, 255, 0),
        Rgb::new(10, 10, 10),
        Rgb::new(0, 0, 255),
        Rgb::new(20, 20, 20),
    ];
    assert_eq!(most_saturated(&candidates, &vec![true; 5]), Some(3));
    assert_eq!(most_saturated(&candidates, &vec![true, true, true, false, true]), Some(1));
    assert_eq!(most_saturated(&candidates, &vec![false, false, true, false, true]), Some(4));
}

#[test]
fn green_beats_grey_on_black() {
    let grey = Rgb::new(128, 128, 128);
    let green = Rgb::new(0, 200, 0);
    assert_eq!(choose_best_color_for_bg(vec![grey, green], &Rgb::new(0, 0, 0)), green);
    assert_eq!(choose_best_color_for_bg(vec![green, grey], &Rgb::new(0, 0, 0)), green);
}

#[test]
fn colours_without_contrast_give_way_to_black_or_white() {
    // Neither stripe stands out on the grey background; black does, white
    // does not.
    let background = Rgb::new(120, 120, 120);
    let stripes = vec![Rgb::new(128, 128, 128), Rgb::new(110, 130, 110)];
    assert_eq!(choose_best_color_for_bg(stripes, &background), Rgb::new(0, 0, 0));
    // On a dark background white is the one that stands out.
    let background = Rgb::new(40, 40, 40);
    let stripes = vec![Rgb::new(50, 40, 40), Rgb::new(30, 30, 45)];
    assert_eq!(choose_best_color_for_bg(stripes, &background), Rgb::new(255, 255, 255));
}

#[test]
fn contrast_is_asked_at_four_and_a_half_to_one() {
    // On white, #767676 has a contrast of 4.54 and #777777 one of 4.48.
    let white = Rgb::new(255, 255, 255);
    let passes = Rgb::new(0x76, 0x76, 0x77);
    let fails = Rgb::new(0x77, 0x77, 0x78);
    assert_eq!(choose_best_color_for_bg(vec![passes], &white), passes);
    assert_eq!(choose_best_color_for_bg(vec![fails], &white), Rgb::new(0, 0, 0));
    // A colour with a contrast between 3 and 4.5 is set aside: pure red on
    // white has 4.0.
    assert_eq!(choose_best_color_for_bg(vec![Rgb::new(255, 0, 0)], &white), Rgb::new(0, 0, 0));
}

#[test]
fn without_colours_black_or_white_is_chosen() {
    assert_eq!(choose_best_color_for_bg(Vec::new(), &Rgb::new(0, 0, 0)), Rgb::new(255, 255, 255));
    assert_eq!(choose_best_color_for_bg(Vec::new(), &Rgb::new(255, 255, 255)), Rgb::new(0, 0, 0));
    // Both stand out on this grey, and both are greys: white comes last.
    assert_eq!(
        choose_best_color_for_bg(Vec::new(), &Rgb::new(118, 118, 118)),
        Rgb::new(255, 255, 255)
    );
}

#[test]
fn black_or_white_is_chosen_on_every_background() {
    let black = Rgb::new(0, 0, 0);
    let white = Rgb::new(255, 255, 255);
    let mut whites = 0u32;
    for red in 0..=255u8 {
        for green in 0..=255u8 {
            for blue in 0..=255u8 {
                let chosen = choose_best_color_for_bg(Vec::new(), &Rgb::new(red, green, blue));
                assert!(chosen == black || chosen == white);
                if chosen == white {
                    whites += 1;
                }
            }
        }
    }
    assert!(whites > 0 && whites < 256 * 256 * 256);
}

// Whether a colour that is no grey stands out on the background: it then
// beats black and white, which are greys.
fn stands_out(colour: &Rgb, background: &Rgb) -> bool {
    assert!(saturation(colour).numerator > 0);
    choose_best_color_for_bg(vec![*colour], background) == *colour
}

#[test]
fn the_choice_is_the_most_saturated_of_those_that_stand_out() {
    let palette: Vec<Rgb> = (1..13u32)
        .map(|i| Rgb::new((i * 67 % 256) as u8, (i * 101 % 256) as u8, (i * 29 % 256) as u8))
        .collect();
    let mut from_the_palette = 0;
    for i in 0..300u32 {
        let background =
            Rgb::new((i * 37 % 256) as u8, (i * 91 % 256) as u8, (i * 53 % 256) as u8);
        let best = choose_best_color_for_bg(palette.clone(), &background);
        let standing_out: Vec<&Rgb> =
            palette.iter().filter(|c| stands_out(c, &background)).collect();
        if standing_out.is_empty() {
            assert!(best == Rgb::new(0, 0, 0) || best == Rgb::new(255, 255, 255));
        } else {
            assert!(standing_out.contains(&&best));
            for candidate in standing_out {
                assert!(less_or_equally_saturated(candidate, &best));
                assert!(float_saturation(candidate) <= float_saturation(&best));
            }
            from_the_palette += 1;
        }
    }
    assert!(from_the_palette > 100);
}

#[test]
fn the_light_stripe_is_chosen_on_a_dark_background() {
    // A light green and a dark brown stripe, against #222.
    let stripes = vec![Rgb::new(0xd4, 0xfb, 0x79), Rgb::new(0x69, 0x39, 0x00)];
    assert_eq!(
        choose_best_color_for_bg(stripes, &Rgb::new(0x22, 0x22, 0x22)).to_hex(),
        "#d4fb79"
    );
}

#[test]
fn the_dark_stripe_is_chosen_on_a_light_background() {
    // A light green and a dark brown stripe, against #fff.
    let stripes = vec![Rgb::new(0xd4, 0xfb, 0x79), Rgb::new(0x69, 0x39, 0x00)];
    assert_eq!(
        choose_best_color_for_bg(stripes, &Rgb::new(0xff, 0xff, 0xff)).to_hex(),
        "#693900"
    );
}
