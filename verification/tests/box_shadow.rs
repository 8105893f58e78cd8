use kayak_ui::styles::box_shadow::{box_shadow_parts, hex_color, is_rgba, rgba_parts, BoxShadow, ShadowText};
use kayak_ui::styles::units::{Color, FloatBits, Vec2};

fn text(s: &str) -> Vec<char> {
    s.chars().collect()
}

fn as_strings(shadow: &ShadowText) -> (String, Vec<String>) {
    (shadow.color.iter().collect(), shadow.lengths.iter().map(|l| l.iter().collect()).collect())
}

#[test]
fn test_box_shadow_from_string() {
    let box_shadow_string = "box-shadow: rgba(50, 50, 93, 0.25) 0px 50px 100px -20px, rgba(0, 0, 0, 0.3) 0px 30px 60px -30px;";
    let result = box_shadow_parts(box_shadow_string);
    assert_eq!(result.len(), 2);
    assert_eq!(
        as_strings(&result[0]),
        (String::from("rgba(50, 50, 93, 0.25)"), vec![String::from("0"), String::from("50"), String::from("100"), String::from("-20")])
    );
    assert_eq!(
        as_strings(&result[1]),
        (String::from("rgba(0, 0, 0, 0.3)"), vec![String::from("0"), String::from("30"), String::from("60"), String::from("-30")])
    );
}

#[test]
fn box_shadow_color_last_or_first() {
    let result = box_shadow_parts("inset 2px 3px #ff0000");
    assert_eq!(as_strings(&result[0]), (String::from("#ff0000"), vec![String::from("2"), String::from("3")]));
    let result = box_shadow_parts("red 4px");
    assert_eq!(as_strings(&result[0]), (String::from("red"), vec![String::from("4")]));
    let result = box_shadow_parts("");
    assert_eq!(result.len(), 1);
    assert_eq!(as_strings(&result[0]), (String::new(), vec![]));
}

#[test]
fn rgba_color_components() {
    assert!(is_rgba(&text("rgba(1, 2, 3, 0.5)")));
    assert!(is_rgba(&text("rgb(1, 2, 3)")));
    assert!(!is_rgba(&text("#abc")));
    let parts: Vec<String> = rgba_parts(&text("rgba(50, 50, 93, 0.25)")).iter().map(|p| p.iter().collect()).collect();
    assert_eq!(parts, vec!["50", "50", "93", "0.25"]);
    let parts: Vec<String> = rgba_parts(&text("rgb( 1,2 ,3 )")).iter().map(|p| p.iter().collect()).collect();
    assert_eq!(parts, vec!["1", "2", "3"]);
}

#[test]
fn hex_colors() {
    assert_eq!(hex_color(&text("#fa0")), Some((255, 170, 0, 255)));
    assert_eq!(hex_color(&text("fa08")), Some((255, 170, 0, 136)));
    assert_eq!(hex_color(&text("#1A2b3C")), Some((0x1a, 0x2b, 0x3c, 255)));
    assert_eq!(hex_color(&text("#1a2b3c4d")), Some((0x1a, 0x2b, 0x3c, 0x4d)));
    assert_eq!(hex_color(&text("#12345")), None);
    assert_eq!(hex_color(&text("#xyz")), None);
    assert_eq!(hex_color(&text("##fff")), None);
}

#[test]
fn box_shadow_from_lengths() {
    let color = Color::default();
    let shadow = BoxShadow::from_lengths(color, &[FloatBits(1), FloatBits(2), FloatBits(3), FloatBits(4)]);
    assert_eq!(shadow.offset, Vec2 { x: FloatBits(1), y: FloatBits(2) });
    assert_eq!(shadow.radius, FloatBits(3));
    assert_eq!(shadow.spread, Vec2 { x: FloatBits(4), y: FloatBits(4) });
    let shadow = BoxShadow::from_lengths(color, &[FloatBits(7)]);
    assert_eq!(shadow.offset, Vec2 { x: FloatBits(7), y: FloatBits(0) });
    assert_eq!(shadow.radius, FloatBits(0));
    assert_eq!(shadow.spread, Vec2::default());
}
