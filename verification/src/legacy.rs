//! Scenes as earlier versions stored them, and how they become scenes of today.
//!
//! The two earlier formats differ in the text style alone: the older one knows
//! neither the line height nor the letter spacing, the newer one lacks only the
//! letter spacing.

use indexmap::IndexMap;
use vstd::prelude::*;

use crate::maps;
use crate::maps::{collect_nodes, collect_pages, take_legacy_nodes, take_legacy_pages};
use crate::scene::{
    BlobRef, FontPrediction, ImageData, LinePolygon, MaskData, Node, NodeId, NodeKind, Page, PageId,
    ProjectMeta, Scene, Single, TextAlign, TextData, TextDirection, TextShaderEffect,
    TextStrokeStyle, TextStyle, Transform,
};

verus! {

/// A text style with a line height and without letter spacing.
#[derive(Debug)]
pub struct LineHeightTextStyle {
    pub font_families: Vec<String>,
    pub font_size: Option<Single>,
    pub color: [u8; 4],
    pub effect: Option<TextShaderEffect>,
    pub stroke: Option<TextStrokeStyle>,
    pub text_align: Option<TextAlign>,
    pub line_height: Option<Single>,
}

impl LineHeightTextStyle {
    /// The same style of today, without letter spacing.
    pub open spec fn current(self) -> TextStyle {
        TextStyle {
            font_families: self.font_families,
            font_size: self.font_size,
            color: self.color,
            effect: self.effect,
            stroke: self.stroke,
            text_align: self.text_align,
            line_height: self.line_height,
            letter_spacing: None,
        }
    }

    /// The same style of today, without letter spacing.
    pub fn into_current(self) -> (r: TextStyle)
        ensures
            r == self.current(),
            r.font_families == self.font_families,
            r.font_size == self.font_size,
            r.color == self.color,
            r.effect == self.effect,
            r.stroke == self.stroke,
            r.text_align == self.text_align,
            r.line_height == self.line_height,
            r.letter_spacing is None,
    {
        TextStyle {
            font_families: self.font_families,
            font_size: self.font_size,
            color: self.color,
            effect: self.effect,
            stroke: self.stroke,
            text_align: self.text_align,
            line_height: self.line_height,
            letter_spacing: None,
        }
    }
}

/// A text style with neither a line height nor letter spacing.
#[derive(Debug)]
pub struct NoLineHeightTextStyle {
    pub font_families: Vec<String>,
    pub font_size: Option<Single>,
    pub color: [u8; 4],
    pub effect: Option<TextShaderEffect>,
    pub stroke: Option<TextStrokeStyle>,
    pub text_align: Option<TextAlign>,
}

impl NoLineHeightTextStyle {
    /// The same style of today, with neither a line height nor letter spacing.
    pub open spec fn current(self) -> TextStyle {
        TextStyle {
            font_families: self.font_families,
            font_size: self.font_size,
            color: self.color,
            effect: self.effect,
            stroke: self.stroke,
            text_align: self.text_align,
            line_height: None,
            letter_spacing: None,
        }
    }

    /// The same style of today, with neither a line height nor letter spacing.
    pub fn into_current(self) -> (r: TextStyle)
        ensures
            r == self.current(),
            r.font_families == self.font_families,
            r.font_size == self.font_size,
            r.color == self.color,
            r.effect == self.effect,
            r.stroke == self.stroke,
            r.text_align == self.text_align,
            r.line_height is None,
            r.letter_spacing is None,
    {
        TextStyle {
            font_families: self.font_families,
            font_size: self.font_size,
            color: self.color,
            effect: self.effect,
            stroke: self.stroke,
            text_align: self.text_align,
            line_height: None,
            letter_spacing: None,
        }
    }
}

/// A text style of either earlier format.
#[derive(Debug)]
pub enum LegacyTextStyle {
    LineHeight(LineHeightTextStyle),
    NoLineHeight(NoLineHeightTextStyle),
}

impl LegacyTextStyle {
    /// The same style of today.
    pub open spec fn current(self) -> TextStyle {
        match self {
            LegacyTextStyle::LineHeight(style) => style.current(),
            LegacyTextStyle::NoLineHeight(style) => style.current(),
        }
    }

    /// The same style of today.
    pub fn into_current(self) -> (r: TextStyle)
        ensures
            r == self.current(),
    {
        match self {
            LegacyTextStyle::LineHeight(style) => style.into_current(),
            LegacyTextStyle::NoLineHeight(style) => style.into_current(),
        }
    }
}

/// A text on a page, in an earlier format.
#[derive(Debug)]
pub struct LegacyTextData {
    pub confidence: Single,
    pub source_lang: Option<String>,
    pub source_direction: Option<TextDirection>,
    pub rendered_direction: Option<TextDirection>,
    pub line_polygons: Option<Vec<LinePolygon>>,
    pub rotation_deg: Option<Single>,
    pub detected_font_size_px: Option<Single>,
    pub detector: Option<String>,
    pub text: Option<String>,
    pub translation: Option<String>,
    pub style: Option<LegacyTextStyle>,
    pub font_prediction: Option<FontPrediction>,
    pub sprite: Option<BlobRef>,
    pub sprite_transform: Option<Transform>,
    pub lock_layout_box: bool,
}

impl LegacyTextData {
    /// The same text of today: only the style changes.
    pub open spec fn current(self) -> TextData {
        TextData {
            confidence: self.confidence,
            source_lang: self.source_lang,
            source_direction: self.source_direction,
            rendered_direction: self.rendered_direction,
            line_polygons: self.line_polygons,
            rotation_deg: self.rotation_deg,
            detected_font_size_px: self.detected_font_size_px,
            detector: self.detector,
            text: self.text,
            translation: self.translation,
            style: match self.style {
                Some(style) => Some(style.current()),
                None => None,
            },
            font_prediction: self.font_prediction,
            sprite: self.sprite,
            sprite_transform: self.sprite_transform,
            lock_layout_box: self.lock_layout_box,
        }
    }

    /// The same text of today: only the style changes.
    pub fn into_current(self) -> (r: TextData)
        ensures
            r == self.current(),
            r.confidence == self.confidence,
            r.source_lang == self.source_lang,
            r.source_direction == self.source_direction,
            r.rendered_direction == self.rendered_direction,
            r.line_polygons == self.line_polygons,
            r.rotation_deg == self.rotation_deg,
            r.detected_font_size_px == self.detected_font_size_px,
            r.detector == self.detector,
            r.text == self.text,
            r.translation == self.translation,
            r.font_prediction == self.font_prediction,
            r.sprite == self.sprite,
            r.sprite_transform == self.sprite_transform,
            r.lock_layout_box == self.lock_layout_box,
            match self.style {
                Some(style) => r.style == Some(style.current()),
                None => r.style is None,
            },
    {
        TextData {
            confidence: self.confidence,
            source_lang: self.source_lang,
            source_direction: self.source_direction,
            rendered_direction: self.rendered_direction,
            line_polygons: self.line_polygons,
            rotation_deg: self.rotation_deg,
            detected_font_size_px: self.detected_font_size_px,
            detector: self.detector,
            text: self.text,
            translation: self.translation,
            style: match self.style {
                Some(style) => Some(style.into_current()),
                None => None,
            },
            font_prediction: self.font_prediction,
            sprite: self.sprite,
            sprite_transform: self.sprite_transform,
            lock_layout_box: self.lock_layout_box,
        }
    }
}

/// What a node shows, in an earlier format.
#[derive(Debug)]
pub enum LegacyNodeKind {
    Image(ImageData),
    Text(LegacyTextData),
    Mask(MaskData),
}

impl LegacyNodeKind {
    /// The same content of today: only a text changes.
    pub open spec fn current(self) -> NodeKind {
        match self {
            LegacyNodeKind::Image(data) => NodeKind::Image(data),
            LegacyNodeKind::Text(data) => NodeKind::Text(data.current()),
            LegacyNodeKind::Mask(data) => NodeKind::Mask(data),
        }
    }

    /// The same content of today: only a text changes.
    pub fn into_current(self) -> (r: NodeKind)
        ensures
            r == self.current(),
            self matches LegacyNodeKind::Image(data) ==> r == NodeKind::Image(data),
            self matches LegacyNodeKind::Mask(data) ==> r == NodeKind::Mask(data),
            self is Text <==> r is Text,
    {
        match self {
            LegacyNodeKind::Image(data) => NodeKind::Image(data),
            LegacyNodeKind::Text(data) => NodeKind::Text(data.into_current()),
            LegacyNodeKind::Mask(data) => NodeKind::Mask(data),
        }
    }
}

/// Something on a page, in an earlier format.
#[derive(Debug)]
pub struct LegacyNode {
    pub id: NodeId,
    pub transform: Transform,
    pub visible: bool,
    pub kind: LegacyNodeKind,
}

impl LegacyNode {
    /// The same node of today: only its content changes.
    pub open spec fn current(self) -> Node {
        Node {
            id: self.id,
            transform: self.transform,
            visible: self.visible,
            kind: self.kind.current(),
        }
    }

    /// The same node of today: only its content changes.
    pub fn into_current(self) -> (r: Node)
        ensures
            r == self.current(),
            r.id == self.id,
            r.transform == self.transform,
            r.visible == self.visible,
    {
        Node {
            id: self.id,
            transform: self.transform,
            visible: self.visible,
            kind: self.kind.into_current(),
        }
    }
}

/// A page and the nodes on it, in an earlier format.
#[derive(Debug)]
pub struct LegacyPage {
    pub id: PageId,
    pub name: String,
    pub width: u32,
    pub height: u32,
    pub nodes: IndexMap<NodeId, LegacyNode>,
}

impl LegacyPage {
    /// Whether `page` is this page of today: the same page, with the nodes of
    /// today under the same keys in the same order.
    pub open spec fn becomes(self, page: Page) -> bool {
        &&& page.id == self.id
        &&& page.name == self.name
        &&& page.width == self.width
        &&& page.height == self.height
        &&& maps::node_entries(page.nodes) == maps::legacy_node_entries(self.nodes).map_values(
            |e: (NodeId, LegacyNode)| (e.0, e.1.current()),
        )
    }

    /// The same page of today: only the contents of its nodes change.
    pub fn into_current(self) -> (r: Page)
        ensures
            self.becomes(r),
    {
        let from = take_legacy_nodes(self.nodes);
        let ghost entries = from@;
        let mut to: Vec<(NodeId, Node)> = Vec::new();
        for entry in it: from
            invariant
                it.seq() == entries,
                to@ == entries.take(it.index() as int).map_values(
                    |e: (NodeId, LegacyNode)| (e.0, e.1.current()),
                ),
        {
            let (id, node) = entry;
            to.push((id, node.into_current()));
            assert(to@ =~= entries.take(it.index() + 1).map_values(
                |e: (NodeId, LegacyNode)| (e.0, e.1.current()),
            ));
        }
        proof {
            assert(entries.take(entries.len() as int) =~= entries);
            assert forall|i: int, j: int| 0 <= i < j < to@.len() implies (#[trigger] to@[i]).0 != (
            #[trigger] to@[j]).0 by {
                assert(entries[i].0 != entries[j].0);
            }
            maps::lemma_collected_distinct(to@);
        }
        Page {
            id: self.id,
            name: self.name,
            width: self.width,
            height: self.height,
            nodes: collect_nodes(to),
        }
    }
}

/// A project's pages, in an earlier format.
#[derive(Debug)]
pub struct LegacyScene {
    pub project: ProjectMeta,
    pub pages: IndexMap<PageId, LegacyPage>,
}

impl LegacyScene {
    /// Whether `scene` is this scene of today: the same project, with the pages
    /// of today under the same keys in the same order.
    pub open spec fn becomes(self, scene: Scene) -> bool {
        let from = maps::legacy_page_entries(self.pages);
        let to = maps::page_entries(scene.pages);
        &&& scene.project == self.project
        &&& to.len() == from.len()
        &&& forall|i: int|
            0 <= i < from.len() ==> {
                &&& (#[trigger] to[i]).0 == from[i].0
                &&& from[i].1.becomes(to[i].1)
            }
    }

    /// The same scene of today: only the contents of its nodes change.
    pub fn into_current(self) -> (r: Scene)
        ensures
            self.becomes(r),
    {
        let from = take_legacy_pages(self.pages);
        let ghost entries = from@;
        let mut to: Vec<(PageId, Page)> = Vec::new();
        for entry in it: from
            invariant
                it.seq() == entries,
                to@.len() == it.index(),
                forall|i: int|
                    0 <= i < it.index() ==> {
                        &&& (#[trigger] to@[i]).0 == entries[i].0
                        &&& entries[i].1.becomes(to@[i].1)
                    },
        {
            let (id, page) = entry;
            to.push((id, page.into_current()));
        }
        proof {
            assert forall|i: int, j: int| 0 <= i < j < to@.len() implies (#[trigger] to@[i]).0 != (
            #[trigger] to@[j]).0 by {
                assert(entries[i].0 != entries[j].0);
            }
            maps::lemma_collected_distinct(to@);
        }
        Scene { project: self.project, pages: collect_pages(to) }
    }
}

/// Bringing a text up to date loses nothing: every field but the style stays as it
/// is, and the style keeps every field that it had and gets none that it had not.
pub proof fn law_migrated_text_keeps_everything(t: LegacyTextData, r: TextData)
    requires
        r == t.current(),
    ensures
        r.confidence == t.confidence,
        r.source_lang == t.source_lang,
        r.source_direction == t.source_direction,
        r.rendered_direction == t.rendered_direction,
        r.line_polygons == t.line_polygons,
        r.rotation_deg == t.rotation_deg,
        r.detected_font_size_px == t.detected_font_size_px,
        r.detector == t.detector,
        r.text == t.text,
        r.translation == t.translation,
        r.font_prediction == t.font_prediction,
        r.sprite == t.sprite,
        r.sprite_transform == t.sprite_transform,
        r.lock_layout_box == t.lock_layout_box,
        match (t.style, r.style) {
            (Some(LegacyTextStyle::LineHeight(a)), Some(b)) => {
                &&& b.font_families == a.font_families
                &&& b.font_size == a.font_size
                &&& b.color == a.color
                &&& b.effect == a.effect
                &&& b.stroke == a.stroke
                &&& b.text_align == a.text_align
                &&& b.line_height == a.line_height
                &&& b.letter_spacing is None
            },
            (Some(LegacyTextStyle::NoLineHeight(a)), Some(b)) => {
                &&& b.font_families == a.font_families
                &&& b.font_size == a.font_size
                &&& b.color == a.color
                &&& b.effect == a.effect
                &&& b.stroke == a.stroke
                &&& b.text_align == a.text_align
                &&& b.line_height is None
                &&& b.letter_spacing is None
            },
            (None, None) => true,
            _ => false,
        },
{
}

/// Bringing a scene up to date keeps the project, and all pages under their keys in
/// their order, each with its own name, size and number of nodes.
pub proof fn law_migration_keeps_the_pages(legacy: LegacyScene, scene: Scene, i: int)
    requires
        legacy.becomes(scene),
        0 <= i < maps::legacy_page_entries(legacy.pages).len(),
    ensures
        scene.project == legacy.project,
        maps::page_entries(scene.pages).len() == maps::legacy_page_entries(legacy.pages).len(),
        ({
            let (old_key, old) = maps::legacy_page_entries(legacy.pages)[i];
            let (key, page) = maps::page_entries(scene.pages)[i];
            &&& key == old_key
            &&& page.id == old.id
            &&& page.name == old.name
            &&& page.width == old.width
            &&& page.height == old.height
            &&& maps::node_entries(page.nodes).len() == maps::legacy_node_entries(old.nodes).len()
        }),
{
    assert(maps::page_entries(scene.pages)[i].0 == maps::legacy_page_entries(legacy.pages)[i].0);
}

/// Bringing a scene up to date keeps the nodes of every page under their keys in
/// their order, and what each of them shows: an image and a mask as they are, and of
/// a text every field but the style, which keeps every field that it had.
pub proof fn law_migration_keeps_the_nodes(legacy: LegacyScene, scene: Scene, i: int, j: int)
    requires
        legacy.becomes(scene),
        0 <= i < maps::legacy_page_entries(legacy.pages).len(),
        0 <= j < maps::legacy_node_entries(maps::legacy_page_entries(legacy.pages)[i].1.nodes).len(),
    ensures
        ({
            let (old_key, old) = maps::legacy_node_entries(
                maps::legacy_page_entries(legacy.pages)[i].1.nodes,
            )[j];
            let (key, node) = maps::node_entries(maps::page_entries(scene.pages)[i].1.nodes)[j];
            &&& key == old_key
            &&& node.id == old.id
            &&& node.transform == old.transform
            &&& node.visible == old.visible
            &&& match (old.kind, node.kind) {
                (LegacyNodeKind::Image(a), NodeKind::Image(b)) => a == b,
                (LegacyNodeKind::Mask(a), NodeKind::Mask(b)) => a == b,
                (LegacyNodeKind::Text(t), NodeKind::Text(r)) => {
                    &&& r.confidence == t.confidence
                    &&& r.source_lang == t.source_lang
                    &&& r.source_direction == t.source_direction
                    &&& r.rendered_direction == t.rendered_direction
                    &&& r.line_polygons == t.line_polygons
                    &&& r.rotation_deg == t.rotation_deg
                    &&& r.detected_font_size_px == t.detected_font_size_px
                    &&& r.detector == t.detector
                    &&& r.text == t.text
                    &&& r.translation == t.translation
                    &&& r.font_prediction == t.font_prediction
                    &&& r.sprite == t.sprite
                    &&& r.sprite_transform == t.sprite_transform
                    &&& r.lock_layout_box == t.lock_layout_box
                    &&& match (t.style, r.style) {
                        (Some(LegacyTextStyle::LineHeight(a)), Some(b)) => {
                            &&& b.font_families == a.font_families
                            &&& b.font_size == a.font_size
                            &&& b.color == a.color
                            &&& b.effect == a.effect
                            &&& b.stroke == a.stroke
                            &&& b.text_align == a.text_align
                            &&& b.line_height == a.line_height
                            &&& b.letter_spacing is None
                        },
                        (Some(LegacyTextStyle::NoLineHeight(a)), Some(b)) => {
                            &&& b.font_families == a.font_families
                            &&& b.font_size == a.font_size
                            &&& b.color == a.color
                            &&& b.effect == a.effect
                            &&& b.stroke == a.stroke
                            &&& b.text_align == a.text_align
                            &&& b.line_height is None
                            &&& b.letter_spacing is None
                        },
                        (None, None) => true,
                        _ => false,
                    }
                },
                _ => false,
            }
        }),
{
    let (old_page, page) = (
        maps::legacy_page_entries(legacy.pages)[i].1,
        maps::page_entries(scene.pages)[i].1,
    );
    assert(maps::page_entries(scene.pages)[i].0 == maps::legacy_page_entries(legacy.pages)[i].0);
    assert(old_page.becomes(page));
    let old = maps::legacy_node_entries(old_page.nodes)[j].1;
    let node = maps::node_entries(page.nodes)[j].1;
    assert(node == old.current());
    if let (LegacyNodeKind::Text(t), NodeKind::Text(r)) = (old.kind, node.kind) {
        law_migrated_text_keeps_everything(t, r);
    }
}

} // verus!
