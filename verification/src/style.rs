//! Colors of the editors: the three palettes indexed by [`ColorStyle`], the
//! style flags, and the colors that pins and links get from the kind of data
//! that flows through them.
use vstd::prelude::*;
use crate::node_editor::PinShape;

verus! {

/// A color as red, green, blue and alpha channels.
#[derive(Debug, Clone, Copy, PartialEq, Eq, Structural)]
pub struct Rgba {
    pub r: u8,
    pub g: u8,
    pub b: u8,
    pub a: u8,
}

pub open spec fn rgba(r: u8, g: u8, b: u8, a: u8) -> Rgba {
    Rgba { r, g, b, a }
}

/// An opaque color.
pub open spec fn rgb(r: u8, g: u8, b: u8) -> Rgba {
    Rgba { r, g, b, a: 255 }
}

impl Rgba {
    pub fn new(r: u8, g: u8, b: u8, a: u8) -> (c: Rgba)
        ensures
            c == rgba(r, g, b, a),
    {
        Rgba { r, g, b, a }
    }

    pub fn opaque(r: u8, g: u8, b: u8) -> (c: Rgba)
        ensures
            c == rgb(r, g, b),
    {
        Rgba { r, g, b, a: 255 }
    }
}

/// The colored parts of an editor, each an index into a palette.
#[derive(Debug, Clone, Copy, PartialEq, Eq, Structural)]
pub enum ColorStyle {
    NodeBackground,
    NodeBackgroundHovered,
    NodeBackgroundSelected,
    NodeOutline,
    ActiveNodeOutline,
    TitleBar,
    TitleBarHovered,
    TitleBarSelected,
    StartTitleBar,
    StartTitleBarHovered,
    StartTitleBarSelected,
    Link,
    LinkHovered,
    LinkSelected,
    Pin,
    PinHovered,
    BoxSelector,
    BoxSelectorOutline,
    GridBackground,
    GridLine,
    /// The number of colored parts, the length of a palette.
    Count,
}

impl ColorStyle {
    pub open spec fn spec_index(&self) -> nat {
        match self {
            ColorStyle::NodeBackground => 0,
            ColorStyle::NodeBackgroundHovered => 1,
            ColorStyle::NodeBackgroundSelected => 2,
            ColorStyle::NodeOutline => 3,
            ColorStyle::ActiveNodeOutline => 4,
            ColorStyle::TitleBar => 5,
            ColorStyle::TitleBarHovered => 6,
            ColorStyle::TitleBarSelected => 7,
            ColorStyle::StartTitleBar => 8,
            ColorStyle::StartTitleBarHovered => 9,
            ColorStyle::StartTitleBarSelected => 10,
            ColorStyle::Link => 11,
            ColorStyle::LinkHovered => 12,
            ColorStyle::LinkSelected => 13,
            ColorStyle::Pin => 14,
            ColorStyle::PinHovered => 15,
            ColorStyle::BoxSelector => 16,
            ColorStyle::BoxSelectorOutline => 17,
            ColorStyle::GridBackground => 18,
            ColorStyle::GridLine => 19,
            ColorStyle::Count => 20,
        }
    }

    /// The position of this part in a palette.
    pub fn index(&self) -> (i: usize)
        ensures
            i == self.spec_index(),
    {
        match self {
            ColorStyle::NodeBackground => 0,
            ColorStyle::NodeBackgroundHovered => 1,
            ColorStyle::NodeBackgroundSelected => 2,
            ColorStyle::NodeOutline => 3,
            ColorStyle::ActiveNodeOutline => 4,
            ColorStyle::TitleBar => 5,
            ColorStyle::TitleBarHovered => 6,
            ColorStyle::TitleBarSelected => 7,
            ColorStyle::StartTitleBar => 8,
            ColorStyle::StartTitleBarHovered => 9,
            ColorStyle::StartTitleBarSelected => 10,
            ColorStyle::Link => 11,
            ColorStyle::LinkHovered => 12,
            ColorStyle::LinkSelected => 13,
            ColorStyle::Pin => 14,
            ColorStyle::PinHovered => 15,
            ColorStyle::BoxSelector => 16,
            ColorStyle::BoxSelectorOutline => 17,
            ColorStyle::GridBackground => 18,
            ColorStyle::GridLine => 19,
            ColorStyle::Count => 20,
        }
    }

    /// The dark palette, the editors' default.
    pub fn colors_dark() -> (c: Vec<Rgba>)
        ensures
            c@ == dark_palette(),
    {
        let mut c: Vec<Rgba> = Vec::new();
        c.push(Rgba::new(50, 50, 50, 255));
        c.push(Rgba::new(75, 75, 75, 255));
        c.push(Rgba::new(75, 75, 75, 255));
        c.push(Rgba::new(100, 100, 100, 255));
        c.push(Rgba::new(100, 100, 200, 255));
        c.push(Rgba::new(41, 74, 122, 255));
        c.push(Rgba::new(66, 150, 250, 255));
        c.push(Rgba::new(66, 150, 250, 255));
        c.push(Rgba::new(122, 74, 41, 255));
        c.push(Rgba::new(250, 150, 66, 255));
        c.push(Rgba::new(250, 150, 66, 255));
        c.push(Rgba::new(61, 133, 224, 200));
        c.push(Rgba::new(66, 150, 250, 255));
        c.push(Rgba::new(66, 150, 250, 255));
        c.push(Rgba::new(53, 150, 250, 180));
        c.push(Rgba::new(53, 150, 250, 255));
        c.push(Rgba::new(61, 133, 224, 30));
        c.push(Rgba::new(61, 133, 224, 150));
        c.push(Rgba::new(40, 40, 50, 200));
        c.push(Rgba::new(200, 200, 200, 40));
        assert(c@ =~= dark_palette());
        c
    }

    /// The classic palette. Parts that it does not color are black.
    pub fn colors_classic() -> (c: Vec<Rgba>)
        ensures
            c@ == classic_palette(),
    {
        let mut c: Vec<Rgba> = Vec::new();
        c.push(Rgba::new(50, 50, 50, 255));
        c.push(Rgba::new(75, 75, 75, 255));
        c.push(Rgba::new(75, 75, 75, 255));
        c.push(Rgba::new(100, 100, 100, 255));
        c.push(Rgba::new(0, 0, 0, 255));
        c.push(Rgba::new(69, 69, 138, 255));
        c.push(Rgba::new(82, 82, 161, 255));
        c.push(Rgba::new(82, 82, 161, 255));
        c.push(Rgba::new(0, 0, 0, 255));
        c.push(Rgba::new(0, 0, 0, 255));
        c.push(Rgba::new(0, 0, 0, 255));
        c.push(Rgba::new(255, 255, 255, 100));
        c.push(Rgba::new(105, 99, 204, 153));
        c.push(Rgba::new(105, 99, 204, 153));
        c.push(Rgba::new(89, 102, 156, 170));
        c.push(Rgba::new(102, 122, 179, 200));
        c.push(Rgba::new(82, 82, 161, 100));
        c.push(Rgba::new(82, 82, 161, 255));
        c.push(Rgba::new(40, 40, 50, 200));
        c.push(Rgba::new(200, 200, 200, 40));
        assert(c@ =~= classic_palette());
        c
    }

    /// The light palette. Parts that it does not color are black.
    pub fn colors_light() -> (c: Vec<Rgba>)
        ensures
            c@ == light_palette(),
    {
        let mut c: Vec<Rgba> = Vec::new();
        c.push(Rgba::new(240, 240, 240, 255));
        c.push(Rgba::new(240, 240, 240, 255));
        c.push(Rgba::new(240, 240, 240, 255));
        c.push(Rgba::new(100, 100, 100, 255));
        c.push(Rgba::new(0, 0, 0, 255));
        c.push(Rgba::new(248, 248, 248, 255));
        c.push(Rgba::new(209, 209, 209, 255));
        c.push(Rgba::new(209, 209, 209, 255));
        c.push(Rgba::new(0, 0, 0, 255));
        c.push(Rgba::new(0, 0, 0, 255));
        c.push(Rgba::new(0, 0, 0, 255));
        c.push(Rgba::new(66, 150, 250, 100));
        c.push(Rgba::new(66, 150, 250, 242));
        c.push(Rgba::new(66, 150, 250, 242));
        c.push(Rgba::new(66, 150, 250, 160));
        c.push(Rgba::new(66, 150, 250, 255));
        c.push(Rgba::new(90, 170, 250, 30));
        c.push(Rgba::new(90, 170, 250, 150));
        c.push(Rgba::new(225, 225, 225, 255));
        c.push(Rgba::new(180, 180, 180, 100));
        assert(c@ =~= light_palette());
        c
    }
}

/// The dark palette, one color per [`ColorStyle`] in index order.
pub open spec fn dark_palette() -> Seq<Rgba> {
    seq![
        rgba(50, 50, 50, 255), rgba(75, 75, 75, 255), rgba(75, 75, 75, 255),
        rgba(100, 100, 100, 255), rgba(100, 100, 200, 255), rgba(41, 74, 122, 255),
        rgba(66, 150, 250, 255), rgba(66, 150, 250, 255), rgba(122, 74, 41, 255),
        rgba(250, 150, 66, 255), rgba(250, 150, 66, 255), rgba(61, 133, 224, 200),
        rgba(66, 150, 250, 255), rgba(66, 150, 250, 255), rgba(53, 150, 250, 180),
        rgba(53, 150, 250, 255), rgba(61, 133, 224, 30), rgba(61, 133, 224, 150),
        rgba(40, 40, 50, 200), rgba(200, 200, 200, 40),
    ]
}

/// The classic palette, one color per [`ColorStyle`] in index order.
pub open spec fn classic_palette() -> Seq<Rgba> {
    seq![
        rgba(50, 50, 50, 255), rgba(75, 75, 75, 255), rgba(75, 75, 75, 255),
        rgba(100, 100, 100, 255), rgb(0, 0, 0), rgba(69, 69, 138, 255),
        rgba(82, 82, 161, 255), rgba(82, 82, 161, 255), rgb(0, 0, 0),
        rgb(0, 0, 0), rgb(0, 0, 0), rgba(255, 255, 255, 100),
        rgba(105, 99, 204, 153), rgba(105, 99, 204, 153), rgba(89, 102, 156, 170),
        rgba(102, 122, 179, 200), rgba(82, 82, 161, 100), rgba(82, 82, 161, 255),
        rgba(40, 40, 50, 200), rgba(200, 200, 200, 40),
    ]
}

/// The light palette, one color per [`ColorStyle`] in index order.
pub open spec fn light_palette() -> Seq<Rgba> {
    seq![
        rgba(240, 240, 240, 255), rgba(240, 240, 240, 255), rgba(240, 240, 240, 255),
        rgba(100, 100, 100, 255), rgb(0, 0, 0), rgba(248, 248, 248, 255),
        rgba(209, 209, 209, 255), rgba(209, 209, 209, 255), rgb(0, 0, 0),
        rgb(0, 0, 0), rgb(0, 0, 0), rgba(66, 150, 250, 100),
        rgba(66, 150, 250, 242), rgba(66, 150, 250, 242), rgba(66, 150, 250, 160),
        rgba(66, 150, 250, 255), rgba(90, 170, 250, 30), rgba(90, 170, 250, 150),
        rgba(225, 225, 225, 255), rgba(180, 180, 180, 100),
    ]
}

/// Every palette has exactly one color for each colored part.
pub proof fn law_palettes_cover_every_part(part: ColorStyle)
    requires
        part != ColorStyle::Count,
    ensures
        part.spec_index() < dark_palette().len(),
        part.spec_index() < classic_palette().len(),
        part.spec_index() < light_palette().len(),
        dark_palette().len() == ColorStyle::Count.spec_index(),
        classic_palette().len() == ColorStyle::Count.spec_index(),
        light_palette().len() == ColorStyle::Count.spec_index(),
{
}

/// Style aspects that can be switched on, as bits of a style's flag word.
#[derive(Debug, Clone, Copy, PartialEq, Eq, Structural)]
pub enum StyleFlags {
    NoFlags,
    NodeOutline,
    GridLines,
}

impl StyleFlags {
    pub open spec fn spec_bits(&self) -> usize {
        match self {
            StyleFlags::NoFlags => 0,
            StyleFlags::NodeOutline => 1,
            StyleFlags::GridLines => 4,
        }
    }

    /// The bit of this flag.
    pub fn bits(&self) -> (b: usize)
        ensures
            b == self.spec_bits(),
    {
        match self {
            StyleFlags::NoFlags => 0,
            StyleFlags::NodeOutline => 1,
            StyleFlags::GridLines => 4,
        }
    }

    /// Whether a style with the flag word `flags` has this flag switched on.
    pub fn is_set_in(&self, flags: usize) -> (b: bool)
        ensures
            b == (flags & self.spec_bits() != 0),
    {
        flags & self.bits() != 0
    }
}

/// The flag word of the default style: node outlines and grid lines.
pub fn default_style_flags() -> (f: usize)
    ensures
        f == StyleFlags::NodeOutline.spec_bits() | StyleFlags::GridLines.spec_bits(),
{
    StyleFlags::NodeOutline.bits() | StyleFlags::GridLines.bits()
}

/// The kind of data that a pin carries.
#[derive(Debug, Clone, Copy, PartialEq, Eq, Structural)]
pub enum DataSpec {
    F32,
    Vec2,
    Vec3,
    EntityPath,
    Quat,
    BoneMask,
    Pose,
    EventQueue,
    Bool,
    RagdollConfig,
}

/// How a pin is drawn; `None` leaves a part to the editor's style.
#[derive(Debug, Clone, Copy, PartialEq, Eq, Structural)]
pub struct PinStyleArgs {
    pub background: Option<Rgba>,
    pub hovered: Option<Rgba>,
    pub shape: Option<PinShape>,
}

/// How a link is drawn; `None` leaves a part to the editor's style. The
/// thickness is in whole pixels.
#[derive(Debug, Clone, Copy, PartialEq, Eq, Structural)]
pub struct LinkStyleArgs {
    pub base: Option<Rgba>,
    pub hovered: Option<Rgba>,
    pub selected: Option<Rgba>,
    pub thickness: Option<u8>,
}

/// The color of pins and links that carry `spec`.
pub open spec fn spec_base_color(spec: DataSpec) -> Rgba {
    match spec {
        DataSpec::F32 => rgb(140, 28, 3),
        DataSpec::Vec2 => rgb(50, 103, 29),
        DataSpec::Vec3 => rgb(50, 103, 29),
        DataSpec::EntityPath => rgb(222, 109, 0),
        DataSpec::Quat => rgb(13, 72, 160),
        DataSpec::BoneMask => rgb(113, 59, 40),
        DataSpec::Pose => rgb(180, 180, 180),
        DataSpec::EventQueue => rgb(102, 14, 96),
        DataSpec::Bool => rgb(140, 28, 3),
        DataSpec::RagdollConfig => rgb(28, 140, 3),
    }
}

/// The color of hovered (and of selected) pins and links that carry `spec`.
pub open spec fn spec_highlight_color(spec: DataSpec) -> Rgba {
    match spec {
        DataSpec::F32 => rgb(184, 99, 74),
        DataSpec::Vec2 => rgb(111, 147, 93),
        DataSpec::Vec3 => rgb(111, 147, 93),
        DataSpec::EntityPath => rgb(241, 153, 89),
        DataSpec::Quat => rgb(108, 122, 189),
        DataSpec::BoneMask => rgb(158, 114, 98),
        DataSpec::Pose => rgb(220, 220, 220),
        DataSpec::EventQueue => rgb(165, 113, 168),
        DataSpec::Bool => rgb(184, 99, 74),
        DataSpec::RagdollConfig => rgb(99, 184, 74),
    }
}

/// The thickness of links that carry `spec`, where it is not the style's.
pub open spec fn spec_link_thickness(spec: DataSpec) -> Option<u8> {
    match spec {
        DataSpec::Pose => Some(6),
        DataSpec::EventQueue => Some(3),
        DataSpec::RagdollConfig => Some(6),
        _ => None,
    }
}

/// How pins that carry `spec` are drawn: filled circles in the base color
/// of the kind, highlighted on hover.
pub open spec fn data_pin_style(spec: DataSpec) -> PinStyleArgs {
    PinStyleArgs {
        background: Some(spec_base_color(spec)),
        hovered: Some(spec_highlight_color(spec)),
        shape: Some(PinShape::CircleFilled),
    }
}

/// How links that carry `spec` are drawn: in the base color of the kind,
/// highlighted on hover and selection.
pub open spec fn data_link_style(spec: DataSpec) -> LinkStyleArgs {
    LinkStyleArgs {
        base: Some(spec_base_color(spec)),
        hovered: Some(spec_highlight_color(spec)),
        selected: Some(spec_highlight_color(spec)),
        thickness: spec_link_thickness(spec),
    }
}

/// How time pins are drawn: half-transparent grey filled triangles.
pub open spec fn time_pin_style() -> PinStyleArgs {
    PinStyleArgs {
        background: Some(rgba(150, 150, 150, 127)),
        hovered: Some(rgb(200, 200, 200)),
        shape: Some(PinShape::TriangleFilled),
    }
}

/// How time links are drawn: half-transparent grey, thick.
pub open spec fn time_link_style() -> LinkStyleArgs {
    LinkStyleArgs {
        base: Some(rgba(150, 150, 150, 127)),
        hovered: Some(rgb(200, 200, 200)),
        selected: Some(rgb(200, 200, 200)),
        thickness: Some(6u8),
    }
}

/// How pins and links that carry `spec` are drawn.
pub fn param_spec_to_colors(spec: DataSpec) -> (r: (PinStyleArgs, LinkStyleArgs))
    ensures
        r.0 == data_pin_style(spec),
        r.1 == data_link_style(spec),
{
    let (base, highlight, thickness) = match spec {
        DataSpec::F32 => (Rgba::opaque(140, 28, 3), Rgba::opaque(184, 99, 74), None),
        DataSpec::Vec2 => (Rgba::opaque(50, 103, 29), Rgba::opaque(111, 147, 93), None),
        DataSpec::Vec3 => (Rgba::opaque(50, 103, 29), Rgba::opaque(111, 147, 93), None),
        DataSpec::EntityPath => (Rgba::opaque(222, 109, 0), Rgba::opaque(241, 153, 89), None),
        DataSpec::Quat => (Rgba::opaque(13, 72, 160), Rgba::opaque(108, 122, 189), None),
        DataSpec::BoneMask => (Rgba::opaque(113, 59, 40), Rgba::opaque(158, 114, 98), None),
        DataSpec::Pose => (Rgba::opaque(180, 180, 180), Rgba::opaque(220, 220, 220), Some(6u8)),
        DataSpec::EventQueue => (
            Rgba::opaque(102, 14, 96),
            Rgba::opaque(165, 113, 168),
            Some(3u8),
        ),
        DataSpec::Bool => (Rgba::opaque(140, 28, 3), Rgba::opaque(184, 99, 74), None),
        DataSpec::RagdollConfig => (Rgba::opaque(28, 140, 3), Rgba::opaque(99, 184, 74), Some(6u8)),
    };
    (
        PinStyleArgs { background: Some(base), hovered: Some(highlight), shape: Some(PinShape::CircleFilled) },
        LinkStyleArgs { base: Some(base), hovered: Some(highlight), selected: Some(highlight), thickness },
    )
}

/// How the time pins of a graph and their links are drawn.
pub fn time_colors() -> (r: (PinStyleArgs, LinkStyleArgs))
    ensures
        r.0 == time_pin_style(),
        r.1 == time_link_style(),
{
    let base = Rgba::new(150, 150, 150, 127);
    let highlight = Rgba::opaque(200, 200, 200);
    (
        PinStyleArgs { background: Some(base), hovered: Some(highlight), shape: Some(PinShape::TriangleFilled) },
        LinkStyleArgs { base: Some(base), hovered: Some(highlight), selected: Some(highlight), thickness: Some(6u8) },
    )
}


// ------------------------------------------------------------- resolved styles

/// The colors of a state of the state machine editor; `None` leaves a part
/// to the palette.
#[derive(Debug, Clone, Copy, PartialEq, Eq, Structural)]
pub struct StateArgs {
    pub background: Option<Rgba>,
    pub background_hovered: Option<Rgba>,
    pub background_selected: Option<Rgba>,
    pub outline: Option<Rgba>,
    pub titlebar: Option<Rgba>,
    pub titlebar_hovered: Option<Rgba>,
    pub titlebar_selected: Option<Rgba>,
    pub start_titlebar: Option<Rgba>,
    pub start_titlebar_hovered: Option<Rgba>,
    pub start_titlebar_selected: Option<Rgba>,
}

/// The colors a state is drawn with.
#[derive(Debug, Clone, Copy, PartialEq, Eq, Structural)]
pub struct StateDataColorStyle {
    pub background: Rgba,
    pub background_hovered: Rgba,
    pub background_selected: Rgba,
    pub outline: Rgba,
    pub titlebar: Rgba,
    pub titlebar_hovered: Rgba,
    pub titlebar_selected: Rgba,
    pub start_titlebar: Rgba,
    pub start_titlebar_hovered: Rgba,
    pub start_titlebar_selected: Rgba,
}

/// How a transition is drawn, normally and while it is under way.
#[derive(Debug, Clone, Copy, PartialEq, Eq, Structural)]
pub struct LinkStyle {
    pub base: Rgba,
    pub hovered: Rgba,
    pub selected: Rgba,
    pub active_base: Rgba,
    pub active_hovered: Rgba,
    pub active_selected: Rgba,
    /// In whole pixels.
    pub thickness: u8,
}

/// The color given, or else the palette's color for `part`.
pub open spec fn or_palette(given: Option<Rgba>, palette: Seq<Rgba>, part: ColorStyle) -> Rgba {
    match given {
        Some(c) => c,
        None => palette[part.spec_index() as int],
    }
}

/// The colors of a state with the colors `args`, the palette filling in the
/// parts left open.
pub open spec fn spec_format_state(args: StateArgs, palette: Seq<Rgba>) -> StateDataColorStyle {
    StateDataColorStyle {
        background: or_palette(args.background, palette, ColorStyle::NodeBackground),
        background_hovered: or_palette(args.background_hovered, palette, ColorStyle::NodeBackgroundHovered),
        background_selected: or_palette(args.background_selected, palette, ColorStyle::NodeBackgroundSelected),
        outline: or_palette(args.outline, palette, ColorStyle::NodeOutline),
        titlebar: or_palette(args.titlebar, palette, ColorStyle::TitleBar),
        titlebar_hovered: or_palette(args.titlebar_hovered, palette, ColorStyle::TitleBarHovered),
        titlebar_selected: or_palette(args.titlebar_selected, palette, ColorStyle::TitleBarSelected),
        start_titlebar: or_palette(args.start_titlebar, palette, ColorStyle::StartTitleBar),
        start_titlebar_hovered: or_palette(args.start_titlebar_hovered, palette, ColorStyle::StartTitleBarHovered),
        start_titlebar_selected: or_palette(args.start_titlebar_selected, palette, ColorStyle::StartTitleBarSelected),
    }
}

/// The default look of a transition: the colors while it is under way, and
/// a thickness of three pixels.
pub open spec fn default_link_style() -> LinkStyle {
    LinkStyle {
        base: rgba(150, 150, 150, 127),
        hovered: rgb(200, 200, 200),
        selected: rgb(200, 200, 200),
        active_base: rgb(100, 100, 200),
        active_hovered: rgb(140, 140, 225),
        active_selected: rgb(140, 140, 225),
        thickness: 3,
    }
}

/// How a transition with the style `args` is drawn: the palette fills in
/// the colors left open and `thickness` the thickness; the colors while it
/// is under way are the default ones.
pub open spec fn spec_format_link(args: LinkStyleArgs, palette: Seq<Rgba>, thickness: u8) -> LinkStyle {
    LinkStyle {
        base: or_palette(args.base, palette, ColorStyle::Link),
        hovered: or_palette(args.hovered, palette, ColorStyle::LinkHovered),
        selected: or_palette(args.selected, palette, ColorStyle::LinkSelected),
        thickness: match args.thickness {
            Some(t) => t,
            None => thickness,
        },
        ..default_link_style()
    }
}

fn pick(given: Option<Rgba>, palette: &Vec<Rgba>, part: ColorStyle) -> (c: Rgba)
    requires
        part != ColorStyle::Count,
        palette@.len() == ColorStyle::Count.spec_index(),
    ensures
        c == or_palette(given, palette@, part),
{
    match given {
        Some(c) => c,
        None => palette[part.index()],
    }
}

impl Default for LinkStyle {
    fn default() -> (s: Self)
        ensures
            s == default_link_style(),
    {
        LinkStyle {
            base: Rgba::new(150, 150, 150, 127),
            hovered: Rgba::opaque(200, 200, 200),
            selected: Rgba::opaque(200, 200, 200),
            active_base: Rgba::opaque(100, 100, 200),
            active_hovered: Rgba::opaque(140, 140, 225),
            active_selected: Rgba::opaque(140, 140, 225),
            thickness: 3,
        }
    }
}

/// The colors of a state with the colors `args`, from a style whose palette
/// is `palette`.
pub fn format_node(args: StateArgs, palette: &Vec<Rgba>) -> (c: StateDataColorStyle)
    requires
        palette@.len() == ColorStyle::Count.spec_index(),
    ensures
        c == spec_format_state(args, palette@),
{
    StateDataColorStyle {
        background: pick(args.background, palette, ColorStyle::NodeBackground),
        background_hovered: pick(args.background_hovered, palette, ColorStyle::NodeBackgroundHovered),
        background_selected: pick(args.background_selected, palette, ColorStyle::NodeBackgroundSelected),
        outline: pick(args.outline, palette, ColorStyle::NodeOutline),
        titlebar: pick(args.titlebar, palette, ColorStyle::TitleBar),
        titlebar_hovered: pick(args.titlebar_hovered, palette, ColorStyle::TitleBarHovered),
        titlebar_selected: pick(args.titlebar_selected, palette, ColorStyle::TitleBarSelected),
        start_titlebar: pick(args.start_titlebar, palette, ColorStyle::StartTitleBar),
        start_titlebar_hovered: pick(args.start_titlebar_hovered, palette, ColorStyle::StartTitleBarHovered),
        start_titlebar_selected: pick(args.start_titlebar_selected, palette, ColorStyle::StartTitleBarSelected),
    }
}

/// How a transition with the style `args` is drawn, from a style whose
/// palette is `palette` and whose link thickness is `link_thickness`.
pub fn format_link(args: LinkStyleArgs, palette: &Vec<Rgba>, link_thickness: u8) -> (s: LinkStyle)
    requires
        palette@.len() == ColorStyle::Count.spec_index(),
    ensures
        s == spec_format_link(args, palette@, link_thickness),
{
    let defaults = LinkStyle::default();
    LinkStyle {
        base: pick(args.base, palette, ColorStyle::Link),
        hovered: pick(args.hovered, palette, ColorStyle::LinkHovered),
        selected: pick(args.selected, palette, ColorStyle::LinkSelected),
        thickness: match args.thickness {
            Some(t) => t,
            None => link_thickness,
        },
        ..defaults
    }
}

} // verus!
