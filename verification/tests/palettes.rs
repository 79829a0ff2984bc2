use recolor::color::Color;
use recolor::palette::{Palette, Scheme};

fn scheme(base: &[&str], foreground: &str, background: &str) -> Scheme {
    Scheme::new(
        String::from("Sample"),
        String::from("Nobody"),
        base.iter().map(|text| String::from(*text)).collect(),
        String::from(foreground),
        String::from(background),
    )
}

#[test]
fn scheme_keeps_its_parts() {
    let s = scheme(&["#010203", "#040506"], "#ffffff", "#000000");
    assert_eq!(s.name, "Sample");
    assert_eq!(s.author, "Nobody");
    assert_eq!(s.color, vec![String::from("#010203"), String::from("#040506")]);
    assert_eq!(s.foreground, "#ffffff");
    assert_eq!(s.background, "#000000");
}

#[test]
fn palette_is_base_then_foreground_then_background() {
    let s = scheme(&["#010203", "#040506"], "#ffffff", "#000000");
    let palette = Palette::from_scheme(&s);
    assert_eq!(
        palette.colors(),
        &vec![
            Color { r: 1, g: 2, b: 3 },
            Color { r: 4, g: 5, b: 6 },
            Color { r: 255, g: 255, b: 255 },
            Color { r: 0, g: 0, b: 0 },
        ]
    );
    assert_eq!(palette.len(), 4);
    assert!(!palette.is_empty());
}

#[test]
fn reading_the_palette_leaves_the_scheme_alone() {
    let s = scheme(&["#010203"], "#c5c8c6", "#1d1f21");
    let _ = Palette::from_scheme(&s);
    assert_eq!(s.color, vec![String::from("#010203")]);
    assert_eq!(s.foreground, "#c5c8c6");
    assert_eq!(s.background, "#1d1f21");
}

#[test]
fn malformed_entries_are_dropped_in_place() {
    let s = scheme(&["#010203", "oops", "#040506", "#12345", "#0708zz"], "#ffffff", "black");
    let palette = Palette::from_scheme(&s);
    assert_eq!(
        palette.colors(),
        &vec![
            Color { r: 1, g: 2, b: 3 },
            Color { r: 4, g: 5, b: 6 },
            Color { r: 255, g: 255, b: 255 },
        ]
    );
}

#[test]
fn malformed_foreground_is_dropped() {
    let s = scheme(&["#010203"], "white", "#000000");
    let palette = Palette::from_scheme(&s);
    assert_eq!(palette.colors(), &vec![Color { r: 1, g: 2, b: 3 }, Color { r: 0, g: 0, b: 0 }]);
}

#[test]
fn duplicates_are_kept() {
    let s = scheme(&["#010203", "#010203"], "#010203", "#010203");
    let palette = Palette::from_scheme(&s);
    assert_eq!(palette.colors(), &vec![Color { r: 1, g: 2, b: 3 }; 4]);
}

#[test]
fn scheme_without_base_colors_has_the_two_ground_colors() {
    let s = scheme(&[], "#ffffff", "#000000");
    let palette = Palette::from_scheme(&s);
    assert_eq!(
        palette.colors(),
        &vec![Color { r: 255, g: 255, b: 255 }, Color { r: 0, g: 0, b: 0 }]
    );
}

#[test]
fn all_malformed_scheme_has_an_empty_palette() {
    let s = scheme(&["red", "#12", "#gggggg", ""], "fg", "bg");
    let palette = Palette::from_scheme(&s);
    assert!(palette.is_empty());
    assert_eq!(palette.len(), 0);
    assert_eq!(palette.colors(), &Vec::<Color>::new());
}

#[test]
fn palette_of_given_colors() {
    let colors = vec![Color::new(9, 8, 7), Color::new(6, 5, 4)];
    let palette = Palette::new(colors.clone());
    assert_eq!(palette.colors(), &colors);
    assert_eq!(palette.len(), 2);
    assert!(Palette::new(Vec::new()).is_empty());
}
