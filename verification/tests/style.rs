use animation_graph_editor::node_editor::PinShape;
use animation_graph_editor::style::{
    default_style_flags, format_link, format_node, param_spec_to_colors, time_colors, ColorStyle,
    DataSpec, LinkStyle, LinkStyleArgs, Rgba, StateArgs, StyleFlags,
};

#[test]
fn palettes_have_one_color_per_part() {
    assert_eq!(ColorStyle::Count.index(), 20);
    assert_eq!(ColorStyle::colors_dark().len(), 20);
    assert_eq!(ColorStyle::colors_classic().len(), 20);
    assert_eq!(ColorStyle::colors_light().len(), 20);
}

#[test]
fn palette_entries() {
    let dark = ColorStyle::colors_dark();
    assert_eq!(dark[ColorStyle::TitleBar.index()], Rgba::new(41, 74, 122, 255));
    assert_eq!(dark[ColorStyle::GridLine.index()], Rgba::new(200, 200, 200, 40));
    let classic = ColorStyle::colors_classic();
    assert_eq!(classic[ColorStyle::ActiveNodeOutline.index()], Rgba::new(0, 0, 0, 255));
    assert_eq!(classic[ColorStyle::Link.index()], Rgba::new(255, 255, 255, 100));
    let light = ColorStyle::colors_light();
    assert_eq!(light[ColorStyle::NodeBackground.index()], Rgba::new(240, 240, 240, 255));
    assert_eq!(light[ColorStyle::StartTitleBarSelected.index()], Rgba::opaque(0, 0, 0));
}

#[test]
fn style_flags() {
    assert_eq!(StyleFlags::NoFlags.bits(), 0);
    assert_eq!(StyleFlags::NodeOutline.bits(), 1);
    assert_eq!(StyleFlags::GridLines.bits(), 4);
    assert_eq!(default_style_flags(), 5);
    assert!(StyleFlags::GridLines.is_set_in(default_style_flags()));
    assert!(!StyleFlags::GridLines.is_set_in(1));
}

#[test]
fn pin_colors_by_data_kind() {
    let (pin, link) = param_spec_to_colors(DataSpec::F32);
    assert_eq!(pin.background, Some(Rgba::opaque(140, 28, 3)));
    assert_eq!(pin.hovered, Some(Rgba::opaque(184, 99, 74)));
    assert_eq!(pin.shape, Some(PinShape::CircleFilled));
    assert_eq!(link.selected, Some(Rgba::opaque(184, 99, 74)));
    assert_eq!(link.thickness, None);
    let (_, pose) = param_spec_to_colors(DataSpec::Pose);
    assert_eq!(pose.base, Some(Rgba::opaque(180, 180, 180)));
    assert_eq!(pose.thickness, Some(6));
    assert_eq!(param_spec_to_colors(DataSpec::EventQueue).1.thickness, Some(3));
    assert_eq!(param_spec_to_colors(DataSpec::RagdollConfig).1.thickness, Some(6));
    assert_eq!(param_spec_to_colors(DataSpec::Quat).0.background, Some(Rgba::opaque(13, 72, 160)));
}

#[test]
fn time_pin_colors() {
    let (pin, link) = time_colors();
    assert_eq!(pin.background, Some(Rgba::new(150, 150, 150, 127)));
    assert_eq!(pin.shape, Some(PinShape::TriangleFilled));
    assert_eq!(link.thickness, Some(6));
}

fn no_state_colors() -> StateArgs {
    StateArgs {
        background: None,
        background_hovered: None,
        background_selected: None,
        outline: None,
        titlebar: None,
        titlebar_hovered: None,
        titlebar_selected: None,
        start_titlebar: None,
        start_titlebar_hovered: None,
        start_titlebar_selected: None,
    }
}

#[test]
fn state_colors_fall_back_to_the_palette() {
    let dark = ColorStyle::colors_dark();
    let c = format_node(no_state_colors(), &dark);
    assert_eq!(c.background, Rgba::new(50, 50, 50, 255));
    assert_eq!(c.outline, Rgba::new(100, 100, 100, 255));
    assert_eq!(c.titlebar, Rgba::new(41, 74, 122, 255));
    assert_eq!(c.start_titlebar_selected, Rgba::new(250, 150, 66, 255));

    let mut args = no_state_colors();
    args.titlebar = Some(Rgba::opaque(1, 2, 3));
    let c = format_node(args, &dark);
    assert_eq!(c.titlebar, Rgba::opaque(1, 2, 3));
    assert_eq!(c.titlebar_hovered, Rgba::new(66, 150, 250, 255));
}

#[test]
fn link_style_defaults_and_overrides() {
    let d = LinkStyle::default();
    assert_eq!(d.base, Rgba::new(150, 150, 150, 127));
    assert_eq!(d.active_base, Rgba::opaque(100, 100, 200));
    assert_eq!(d.active_selected, Rgba::opaque(140, 140, 225));
    assert_eq!(d.thickness, 3);

    let classic = ColorStyle::colors_classic();
    let open = LinkStyleArgs { base: None, hovered: None, selected: None, thickness: None };
    let s = format_link(open, &classic, 3);
    assert_eq!(s.base, Rgba::new(255, 255, 255, 100));
    assert_eq!(s.hovered, Rgba::new(105, 99, 204, 153));
    assert_eq!(s.thickness, 3);
    assert_eq!(s.active_hovered, Rgba::opaque(140, 140, 225));

    let s = format_link(time_colors().1, &classic, 3);
    assert_eq!(s.base, Rgba::new(150, 150, 150, 127));
    assert_eq!(s.selected, Rgba::opaque(200, 200, 200));
    assert_eq!(s.thickness, 6);
}
