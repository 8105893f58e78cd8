use kayak_ui::styles::edge::Edge;
use kayak_ui::styles::render_command::RenderCommand;
use kayak_ui::styles::style::{KStyle, StyleProp};
use kayak_ui::styles::units::{Color, FloatBits, Units};

fn bits(value: f32) -> FloatBits {
    FloatBits(value.to_bits())
}

#[test]
fn styles_should_equal() {
    let mut a = KStyle::default();
    let mut b = KStyle::default();
    assert_eq!(a, b);

    a.height = StyleProp::Default;
    b.height = StyleProp::Inherit;
    assert_ne!(a, b);
}

#[test]
fn style_should_inherit_property() {
    let border = Edge::new(bits(1.0), bits(2.0), bits(3.0), bits(4.0));

    let parent = KStyle {
        border: StyleProp::Value(border),
        ..Default::default()
    };
    let mut child = KStyle {
        border: StyleProp::Inherit,
        ..Default::default()
    };

    child.inherit(&parent);

    assert_eq!(border, child.border.resolve());
}

#[test]
fn style_should_apply_styles_on_unset_property() {
    let mut base_style = KStyle::default();
    let other_style = KStyle {
        width: StyleProp::Value(Units::Pixels(bits(123.0))),
        ..Default::default()
    };

    assert_ne!(base_style.width, other_style.width);

    base_style.apply(&other_style);

    assert_eq!(base_style.width, other_style.width);
}

#[test]
fn style_should_not_apply_styles_on_non_unset_property() {
    let mut base_style = KStyle {
        width: StyleProp::Default,
        ..Default::default()
    };
    let other_style = KStyle {
        width: StyleProp::Value(Units::Pixels(bits(123.0))),
        ..Default::default()
    };

    assert_ne!(base_style.width, other_style.width);

    base_style.apply(&other_style);

    assert_ne!(base_style.width, other_style.width);
}

#[test]
fn style_should_apply_option_style() {
    let mut base_style = KStyle::default();
    let other_style = Some(KStyle {
        width: StyleProp::Value(Units::Pixels(bits(123.0))),
        ..Default::default()
    });

    assert_ne!(base_style.width, other_style.as_ref().unwrap().width);

    base_style.apply(&other_style);

    assert_eq!(base_style.width, other_style.as_ref().unwrap().width);

    base_style.apply(None);

    assert_eq!(base_style.width, other_style.as_ref().unwrap().width);
}

#[test]
fn style_should_not_apply_none() {
    let expected = KStyle::default();
    let mut base_style = expected.clone();

    assert_eq!(expected, base_style);
    base_style.apply(None);
    assert_eq!(expected, base_style);
}

#[test]
fn styles_should_be_buildable() {
    let expected_left = StyleProp::Default;
    let expected_width = StyleProp::Value(Units::Stretch(bits(1.0)));
    let expected_height = StyleProp::Inherit;

    let expected = KStyle {
        left: expected_left.clone(),
        width: expected_width.clone(),
        height: expected_height.clone(),
        ..Default::default()
    };

    let style = KStyle::default()
        // Pass ownership
        .with_style(KStyle {
            height: expected_height,
            ..Default::default()
        })
        // Pass ownership of option
        .with_style(Some(KStyle {
            left: expected_left,
            ..Default::default()
        }))
        // Pass reference
        .with_style(&KStyle {
            width: expected_width,
            ..Default::default()
        });

    assert_eq!(expected, style);
}

#[test]
fn styles_should_add() {
    let expected_left = StyleProp::Default;
    let expected_width = StyleProp::Value(Units::Stretch(bits(1.0)));
    let expected_height = StyleProp::Inherit;

    let expected = KStyle {
        left: expected_left.clone(),
        width: expected_width.clone(),
        height: expected_height.clone(),
        ..Default::default()
    };

    let style_a = KStyle::default();
    let style_b = KStyle {
        height: expected_height,
        ..Default::default()
    };
    let style_c = KStyle {
        left: expected_left,
        ..Default::default()
    };
    let style_d = KStyle {
        width: expected_width,
        ..Default::default()
    };

    assert_eq!(expected, style_a + style_b + style_c + style_d);
}

#[test]
fn value_should_convert_to_property() {
    let expected_width = Units::Pixels(bits(123.0));
    let expected = StyleProp::Value(expected_width);

    let property: StyleProp<_> = expected_width.into();

    assert_eq!(expected, property);
}

#[test]
fn value_should_resolve_with_given_value() {
    let expected: f32 = 123.0;
    let property = StyleProp::Default;

    assert_eq!(expected, property.resolve_or(expected));
    assert_eq!(expected, property.resolve_or_else(|| expected));
    assert_eq!(f32::default(), property.resolve_or_default());
}

#[test]
fn select_returns_first_set_property() {
    let unset: StyleProp<i32> = StyleProp::Unset;
    let inherit: StyleProp<i32> = StyleProp::Inherit;
    let value: StyleProp<i32> = StyleProp::Value(5);
    assert_eq!(&StyleProp::Inherit, StyleProp::select(&[&unset, &inherit, &value]));
    assert_eq!(&StyleProp::Value(5), StyleProp::select(&[&unset, &value]));
    assert_eq!(&StyleProp::Unset, StyleProp::select(&[&unset, &unset]));
    assert_eq!(&StyleProp::<i32>::Unset, StyleProp::select(&[]));
}

#[test]
fn resolve_gives_value_or_default() {
    assert_eq!(7, StyleProp::Value(7).resolve());
    assert_eq!(0, StyleProp::<i32>::Unset.resolve());
    assert_eq!(0, StyleProp::<i32>::Default.resolve());
    assert_eq!(0, StyleProp::<i32>::Inherit.resolve_or_default());
    assert_eq!(3, StyleProp::Value(3).resolve_or(9));
}

#[test]
fn initial_style_inherits_text_properties() {
    let initial = KStyle::initial();
    assert_eq!(StyleProp::Inherit, initial.color);
    assert_eq!(StyleProp::Inherit, initial.font);
    assert_eq!(StyleProp::Value(RenderCommand::Layout), initial.render_command);
    assert_eq!(StyleProp::Default, initial.width);
    let all_default = KStyle::new_default();
    assert_eq!(StyleProp::Default, all_default.color);
}

#[test]
fn inherit_leaves_set_properties() {
    let parent = KStyle {
        z_index: StyleProp::Value(3),
        row_index: StyleProp::Value(2),
        ..Default::default()
    };
    let mut child = KStyle {
        z_index: StyleProp::Inherit,
        row_index: StyleProp::Value(1),
        ..Default::default()
    };
    child.inherit(&parent);
    assert_eq!(StyleProp::Value(3), child.z_index);
    assert_eq!(StyleProp::Value(1), child.row_index);
}

#[test]
fn units_kinds() {
    assert!(Units::Pixels(bits(1.0)).is_pixels());
    assert!(Units::Percentage(bits(50.0)).is_percentage());
    assert!(Units::Stretch(bits(1.0)).is_stretch());
    assert!(Units::Auto.is_auto());
    assert!(!Units::Auto.is_pixels());
}

#[test]
fn inherited_style_resolves() {
    let parent = KStyle {
        color: StyleProp::Value(Color::default()),
        width: StyleProp::Value(Units::Pixels(FloatBits(7))),
        ..KStyle::new_default()
    };
    let mut child = KStyle {
        color: StyleProp::Inherit,
        width: StyleProp::Inherit,
        height: StyleProp::Unset,
        ..KStyle::default()
    };
    child.inherit(&parent);
    assert_eq!(child.color.resolve(), Color::default());
    assert_eq!(child.width.resolve(), Units::Pixels(FloatBits(7)));
    assert_eq!(child.height, StyleProp::Unset);
}

#[test]
fn applying_twice_changes_nothing() {
    let other = KStyle {
        width: StyleProp::Value(Units::Pixels(FloatBits(3))),
        height: StyleProp::Default,
        ..KStyle::default()
    };
    let once = KStyle { left: StyleProp::Value(Units::Auto), ..KStyle::default() }.with_style(&other);
    let twice = once.clone().with_style(&other);
    assert_eq!(once, twice);
}

#[test]
fn style_addition_is_associative_with_identity() {
    let a = KStyle { width: StyleProp::Value(Units::Pixels(FloatBits(1))), ..KStyle::default() };
    let b = KStyle {
        width: StyleProp::Value(Units::Pixels(FloatBits(2))),
        border: StyleProp::Value(Edge::new(FloatBits(1), FloatBits(2), FloatBits(3), FloatBits(4))),
        ..KStyle::default()
    };
    let c = KStyle { height: StyleProp::Default, grid_rows: StyleProp::Value(vec![Units::Auto]), ..KStyle::default() };
    let left = (a.clone() + b.clone()) + c.clone();
    let right = a.clone() + (b.clone() + c.clone());
    assert_eq!(left, right);
    assert_eq!(KStyle::default() + a.clone(), a);
    assert_eq!(a.clone() + KStyle::default(), a);
    assert_ne!((a.clone() + b.clone()).width, (b + a).width);
}

#[test]
fn default_float_property_resolves_to_zero() {
    let property: StyleProp<FloatBits> = StyleProp::Default;
    assert_eq!(property.resolve_or_default(), FloatBits(0.0f32.to_bits()));
    let inherited: StyleProp<FloatBits> = StyleProp::Inherit;
    assert_eq!(inherited.resolve_or_default(), FloatBits::default());
    assert_eq!(FloatBits::default(), FloatBits(0));
}
