//! The scene of a project: its pages, and the image, text and mask nodes on them.

use indexmap::IndexMap;
use vstd::prelude::*;

use crate::maps;
use crate::maps::{collect_nodes, collect_pages, iter_nodes, iter_pages};

verus! {

/// Identifies a page: the number of its UUID.
pub type PageId = u128;

/// Identifies a node: the number of its UUID.
pub type NodeId = u128;

/// A single-precision number, held by its bits.
#[derive(Clone, Copy, Debug, PartialEq, Eq, Structural)]
pub struct Single {
    pub bits: u32,
}

/// A value that is carried along and never looked into, in the serialised form
/// that its owner gave it.
#[derive(Debug)]
pub struct Encoded {
    pub bytes: Vec<u8>,
}

/// An image on a page.
pub type ImageData = Encoded;

/// A mask over a page.
pub type MaskData = Encoded;

/// The fonts that a text was recognised as.
pub type FontPrediction = Encoded;

/// A reference into the store of images.
pub type BlobRef = Encoded;

/// The direction in which a text runs.
pub type TextDirection = Encoded;

/// The alignment of a text.
pub type TextAlign = Encoded;

/// The outline of a text.
pub type TextStrokeStyle = Encoded;

/// An instant: seconds since 1970-01-01 UTC, and nanoseconds on top of them.
#[derive(Clone, Copy, Debug, PartialEq, Eq, Structural)]
pub struct Timestamp {
    pub secs: i64,
    pub nanos: u32,
}

/// What is known of a project besides its pages.
#[derive(Debug)]
pub struct ProjectMeta {
    pub name: String,
    pub created_at: Timestamp,
    pub updated_at: Timestamp,
    /// All that goes beyond the name and the two instants; empty where it is as
    /// in a new project.
    pub settings: Encoded,
}

/// Where a node lies on its page.
#[derive(Clone, Copy, Debug, PartialEq, Eq, Structural)]
pub struct Transform {
    pub x: Single,
    pub y: Single,
    pub width: Single,
    pub height: Single,
    pub rotation_deg: Single,
}

/// How the glyphs of a text are drawn.
#[derive(Clone, Copy, Debug, PartialEq, Eq, Structural)]
pub struct TextShaderEffect {
    pub italic: bool,
    pub bold: bool,
}

/// How a text is set.
#[derive(Debug)]
pub struct TextStyle {
    pub font_families: Vec<String>,
    pub font_size: Option<Single>,
    pub color: [u8; 4],
    pub effect: Option<TextShaderEffect>,
    pub stroke: Option<TextStrokeStyle>,
    pub text_align: Option<TextAlign>,
    pub line_height: Option<Single>,
    pub letter_spacing: Option<Single>,
}

/// The outline of a line of text: the two coordinates of its four corners.
pub type LinePolygon = [[Single; 2]; 4];

/// A text on a page.
#[derive(Debug)]
pub struct TextData {
    pub confidence: Single,
    pub source_lang: Option<String>,
    pub source_direction: Option<TextDirection>,
    pub rendered_direction: Option<TextDirection>,
    pub line_polygons: Option<Vec<LinePolygon>>,
    pub rotation_deg: Option<Single>,
    pub detected_font_size_px: Option<Single>,
    pub detector: Option<String>,
    pub text: Option<String>,
    pub translation: Option<String>,
    pub style: Option<TextStyle>,
    pub font_prediction: Option<FontPrediction>,
    pub sprite: Option<BlobRef>,
    pub sprite_transform: Option<Transform>,
    pub lock_layout_box: bool,
}

/// What a node shows.
#[derive(Debug)]
pub enum NodeKind {
    Image(ImageData),
    Text(TextData),
    Mask(MaskData),
}

/// Something on a page.
#[derive(Debug)]
pub struct Node {
    pub id: NodeId,
    pub transform: Transform,
    pub visible: bool,
    pub kind: NodeKind,
}

/// A page and the nodes on it, in their order.
#[derive(Debug)]
pub struct Page {
    pub id: PageId,
    pub name: String,
    pub width: u32,
    pub height: u32,
    pub nodes: IndexMap<NodeId, Node>,
}

/// A project's pages, in their order.
#[derive(Debug)]
pub struct Scene {
    pub project: ProjectMeta,
    pub pages: IndexMap<PageId, Page>,
}

/// Whether two carried values have the same serialised form.
pub open spec fn same_encoded(a: Encoded, b: Encoded) -> bool {
    a.bytes@ == b.bytes@
}

/// Whether both are absent, or both are there with the same serialised form.
pub open spec fn same_encoded_option(a: Option<Encoded>, b: Option<Encoded>) -> bool {
    match (a, b) {
        (Some(a), Some(b)) => same_encoded(a, b),
        (None, None) => true,
        _ => false,
    }
}

/// Whether two styles set a text alike.
pub open spec fn same_style(a: TextStyle, b: TextStyle) -> bool {
    &&& a.font_families@ == b.font_families@
    &&& a.font_size == b.font_size
    &&& a.color == b.color
    &&& a.effect == b.effect
    &&& same_encoded_option(a.stroke, b.stroke)
    &&& same_encoded_option(a.text_align, b.text_align)
    &&& a.line_height == b.line_height
    &&& a.letter_spacing == b.letter_spacing
}

/// Whether two texts are alike.
pub open spec fn same_text(a: TextData, b: TextData) -> bool {
    &&& a.confidence == b.confidence
    &&& a.source_lang == b.source_lang
    &&& same_encoded_option(a.source_direction, b.source_direction)
    &&& same_encoded_option(a.rendered_direction, b.rendered_direction)
    &&& match (a.line_polygons, b.line_polygons) {
        (Some(p), Some(q)) => p@ == q@,
        (None, None) => true,
        _ => false,
    }
    &&& a.rotation_deg == b.rotation_deg
    &&& a.detected_font_size_px == b.detected_font_size_px
    &&& a.detector == b.detector
    &&& a.text == b.text
    &&& a.translation == b.translation
    &&& match (a.style, b.style) {
        (Some(p), Some(q)) => same_style(p, q),
        (None, None) => true,
        _ => false,
    }
    &&& same_encoded_option(a.font_prediction, b.font_prediction)
    &&& same_encoded_option(a.sprite, b.sprite)
    &&& a.sprite_transform == b.sprite_transform
    &&& a.lock_layout_box == b.lock_layout_box
}

/// Whether two nodes are alike.
pub open spec fn same_node(a: Node, b: Node) -> bool {
    &&& a.id == b.id
    &&& a.transform == b.transform
    &&& a.visible == b.visible
    &&& match (a.kind, b.kind) {
        (NodeKind::Image(p), NodeKind::Image(q)) => same_encoded(p, q),
        (NodeKind::Text(p), NodeKind::Text(q)) => same_text(p, q),
        (NodeKind::Mask(p), NodeKind::Mask(q)) => same_encoded(p, q),
        _ => false,
    }
}

/// Whether two pages are alike, with like nodes under the same keys in the same
/// order.
pub open spec fn same_page(a: Page, b: Page) -> bool {
    &&& a.id == b.id
    &&& a.name == b.name
    &&& a.width == b.width
    &&& a.height == b.height
    &&& maps::node_entries(a.nodes).len() == maps::node_entries(b.nodes).len()
    &&& forall|i: int|
        0 <= i < maps::node_entries(a.nodes).len() ==> {
            &&& (#[trigger] maps::node_entries(a.nodes)[i]).0 == maps::node_entries(b.nodes)[i].0
            &&& same_node(maps::node_entries(a.nodes)[i].1, maps::node_entries(b.nodes)[i].1)
        }
}

/// Whether two projects are described alike.
pub open spec fn same_project(a: ProjectMeta, b: ProjectMeta) -> bool {
    &&& a.name == b.name
    &&& a.created_at == b.created_at
    &&& a.updated_at == b.updated_at
    &&& same_encoded(a.settings, b.settings)
}

/// Whether two scenes are alike, with like pages under the same keys in the same
/// order.
pub open spec fn same_scene(a: Scene, b: Scene) -> bool {
    &&& same_project(a.project, b.project)
    &&& maps::page_entries(a.pages).len() == maps::page_entries(b.pages).len()
    &&& forall|i: int|
        0 <= i < maps::page_entries(a.pages).len() ==> {
            &&& (#[trigger] maps::page_entries(a.pages)[i]).0 == maps::page_entries(b.pages)[i].0
            &&& same_page(maps::page_entries(a.pages)[i].1, maps::page_entries(b.pages)[i].1)
        }
}

impl Clone for Encoded {
    fn clone(&self) -> (r: Self)
        ensures
            same_encoded(*self, r),
            r.bytes@ == self.bytes@,
    {
        let bytes = self.bytes.clone();
        assert(bytes@ =~= self.bytes@);
        Encoded { bytes }
    }
}

fn clone_encoded(value: &Option<Encoded>) -> (r: Option<Encoded>)
    ensures
        same_encoded_option(*value, r),
{
    match value {
        Some(value) => Some(value.clone()),
        None => None,
    }
}

fn clone_string(value: &Option<String>) -> (r: Option<String>)
    ensures
        r == *value,
{
    match value {
        Some(value) => Some(value.clone()),
        None => None,
    }
}

impl Clone for TextStyle {
    fn clone(&self) -> (r: Self)
        ensures
            same_style(*self, r),
    {
        let font_families = self.font_families.clone();
        assert(font_families@ =~= self.font_families@);
        TextStyle {
            font_families,
            font_size: self.font_size,
            color: self.color,
            effect: self.effect,
            stroke: clone_encoded(&self.stroke),
            text_align: clone_encoded(&self.text_align),
            line_height: self.line_height,
            letter_spacing: self.letter_spacing,
        }
    }
}

fn clone_polygons(polygons: &Vec<LinePolygon>) -> (r: Vec<LinePolygon>)
    ensures
        r@ == polygons@,
{
    let mut out: Vec<LinePolygon> = Vec::new();
    for i in 0..polygons.len()
        invariant
            out@ == polygons@.take(i as int),
    {
        out.push(polygons[i]);
        assert(polygons@.take(i + 1) =~= polygons@.take(i as int).push(polygons@[i as int]));
    }
    assert(polygons@.take(polygons@.len() as int) =~= polygons@);
    out
}

impl Clone for TextData {
    fn clone(&self) -> (r: Self)
        ensures
            same_text(*self, r),
    {
        TextData {
            confidence: self.confidence,
            source_lang: clone_string(&self.source_lang),
            source_direction: clone_encoded(&self.source_direction),
            rendered_direction: clone_encoded(&self.rendered_direction),
            line_polygons: match &self.line_polygons {
                Some(polygons) => Some(clone_polygons(polygons)),
                None => None,
            },
            rotation_deg: self.rotation_deg,
            detected_font_size_px: self.detected_font_size_px,
            detector: clone_string(&self.detector),
            text: clone_string(&self.text),
            translation: clone_string(&self.translation),
            style: match &self.style {
                Some(style) => Some(style.clone()),
                None => None,
            },
            font_prediction: clone_encoded(&self.font_prediction),
            sprite: clone_encoded(&self.sprite),
            sprite_transform: self.sprite_transform,
            lock_layout_box: self.lock_layout_box,
        }
    }
}

impl Clone for Node {
    fn clone(&self) -> (r: Self)
        ensures
            same_node(*self, r),
    {
        Node {
            id: self.id,
            transform: self.transform,
            visible: self.visible,
            kind: match &self.kind {
                NodeKind::Image(data) => NodeKind::Image(data.clone()),
                NodeKind::Text(data) => NodeKind::Text(data.clone()),
                NodeKind::Mask(data) => NodeKind::Mask(data.clone()),
            },
        }
    }
}

impl Clone for Page {
    fn clone(&self) -> (r: Self)
        ensures
            same_page(*self, r),
    {
        let from = iter_nodes(&self.nodes);
        let ghost entries = maps::node_entries(self.nodes);
        let mut to: Vec<(NodeId, Node)> = Vec::new();
        for i in 0..from.len()
            invariant
                maps::dereferenced(from@) == entries,
                to@.len() == i,
                forall|j: int|
                    0 <= j < i ==> {
                        &&& (#[trigger] to@[j]).0 == entries[j].0
                        &&& same_node(entries[j].1, to@[j].1)
                    },
        {
            let (id, node) = from[i];
            assert(entries[i as int] == maps::dereferenced(from@)[i as int]);
            to.push((*id, node.clone()));
        }
        proof {
            assert forall|i: int, j: int| 0 <= i < j < to@.len() implies (#[trigger] to@[i]).0 != (
            #[trigger] to@[j]).0 by {
                assert(entries[i].0 != entries[j].0);
            }
            maps::lemma_collected_distinct(to@);
        }
        Page {
            id: self.id,
            name: self.name.clone(),
            width: self.width,
            height: self.height,
            nodes: collect_nodes(to),
        }
    }
}

impl Clone for ProjectMeta {
    fn clone(&self) -> (r: Self)
        ensures
            same_project(*self, r),
    {
        ProjectMeta {
            name: self.name.clone(),
            created_at: self.created_at,
            updated_at: self.updated_at,
            settings: self.settings.clone(),
        }
    }
}

impl Clone for Scene {
    fn clone(&self) -> (r: Self)
        ensures
            same_scene(*self, r),
    {
        let from = iter_pages(&self.pages);
        let ghost entries = maps::page_entries(self.pages);
        let mut to: Vec<(PageId, Page)> = Vec::new();
        for i in 0..from.len()
            invariant
                maps::dereferenced(from@) == entries,
                to@.len() == i,
                forall|j: int|
                    0 <= j < i ==> {
                        &&& (#[trigger] to@[j]).0 == entries[j].0
                        &&& same_page(entries[j].1, to@[j].1)
                    },
        {
            let (id, page) = from[i];
            assert(entries[i as int] == maps::dereferenced(from@)[i as int]);
            to.push((*id, page.clone()));
        }
        proof {
            assert forall|i: int, j: int| 0 <= i < j < to@.len() implies (#[trigger] to@[i]).0 != (
            #[trigger] to@[j]).0 by {
                assert(entries[i].0 != entries[j].0);
            }
            maps::lemma_collected_distinct(to@);
        }
        Scene { project: self.project.clone(), pages: collect_pages(to) }
    }
}

/// Styles that are set alike agree in every field.
pub proof fn law_same_style_agrees(a: TextStyle, b: TextStyle)
    requires
        same_style(a, b),
    ensures
        ({
            &&& a.font_families@ == b.font_families@
            &&& a.font_size == b.font_size
            &&& a.color == b.color
            &&& a.effect == b.effect
            &&& match (a.stroke, b.stroke) {
                (Some(p), Some(q)) => p.bytes@ == q.bytes@,
                (None, None) => true,
                _ => false,
            }
            &&& match (a.text_align, b.text_align) {
                (Some(p), Some(q)) => p.bytes@ == q.bytes@,
                (None, None) => true,
                _ => false,
            }
            &&& a.line_height == b.line_height
            &&& a.letter_spacing == b.letter_spacing
        }),
{
}

/// Texts that are alike agree in every field, and their styles do.
pub proof fn law_same_text_agrees(a: TextData, b: TextData)
    requires
        same_text(a, b),
    ensures
        ({
            &&& a.confidence == b.confidence
            &&& a.source_lang == b.source_lang
            &&& match (a.source_direction, b.source_direction) {
                (Some(p), Some(q)) => p.bytes@ == q.bytes@,
                (None, None) => true,
                _ => false,
            }
            &&& match (a.rendered_direction, b.rendered_direction) {
                (Some(p), Some(q)) => p.bytes@ == q.bytes@,
                (None, None) => true,
                _ => false,
            }
            &&& match (a.line_polygons, b.line_polygons) {
                (Some(p), Some(q)) => p@ == q@,
                (None, None) => true,
                _ => false,
            }
            &&& a.rotation_deg == b.rotation_deg
            &&& a.detected_font_size_px == b.detected_font_size_px
            &&& a.detector == b.detector
            &&& a.text == b.text
            &&& a.translation == b.translation
            &&& match (a.style, b.style) {
                (Some(p), Some(q)) => {
                    &&& p.font_families@ == q.font_families@
                    &&& p.font_size == q.font_size
                    &&& p.color == q.color
                    &&& p.effect == q.effect
                    &&& match (p.stroke, q.stroke) {
                        (Some(p), Some(q)) => p.bytes@ == q.bytes@,
                        (None, None) => true,
                        _ => false,
                    }
                    &&& match (p.text_align, q.text_align) {
                        (Some(p), Some(q)) => p.bytes@ == q.bytes@,
                        (None, None) => true,
                        _ => false,
                    }
                    &&& p.line_height == q.line_height
                    &&& p.letter_spacing == q.letter_spacing
                },
                (None, None) => true,
                _ => false,
            }
            &&& match (a.font_prediction, b.font_prediction) {
                (Some(p), Some(q)) => p.bytes@ == q.bytes@,
                (None, None) => true,
                _ => false,
            }
            &&& match (a.sprite, b.sprite) {
                (Some(p), Some(q)) => p.bytes@ == q.bytes@,
                (None, None) => true,
                _ => false,
            }
            &&& a.sprite_transform == b.sprite_transform
            &&& a.lock_layout_box == b.lock_layout_box
        }),
{
}

/// Scenes that are alike describe the same project, and have the same pages under the
/// same keys in the same order, each with as many nodes.
pub proof fn law_same_scene_agrees_on_pages(a: Scene, b: Scene, i: int)
    requires
        same_scene(a, b),
    ensures
        a.project.name == b.project.name,
        a.project.created_at == b.project.created_at,
        a.project.updated_at == b.project.updated_at,
        a.project.settings.bytes@ == b.project.settings.bytes@,
        maps::page_entries(a.pages).len() == maps::page_entries(b.pages).len(),
        0 <= i < maps::page_entries(a.pages).len() ==> {
            let (key, page) = maps::page_entries(a.pages)[i];
            let (other_key, other) = maps::page_entries(b.pages)[i];
            &&& key == other_key
            &&& page.id == other.id
            &&& page.name == other.name
            &&& page.width == other.width
            &&& page.height == other.height
            &&& maps::node_entries(page.nodes).len() == maps::node_entries(other.nodes).len()
        },
{
    assert(0 <= i < maps::page_entries(a.pages).len() ==> maps::page_entries(a.pages)[i].0
        == maps::page_entries(b.pages)[i].0);
}

/// Pages that are alike have the same nodes under the same keys in the same order,
/// which show the same: the nodes agree in every field.
pub proof fn law_same_page_agrees_on_nodes(a: Page, b: Page, i: int)
    requires
        same_page(a, b),
        0 <= i < maps::node_entries(a.nodes).len(),
    ensures
        ({
            let (key, node) = maps::node_entries(a.nodes)[i];
            let (other_key, other) = maps::node_entries(b.nodes)[i];
            &&& key == other_key
            &&& node.id == other.id
            &&& node.transform == other.transform
            &&& node.visible == other.visible
            &&& match (node.kind, other.kind) {
                (NodeKind::Image(p), NodeKind::Image(q)) => p.bytes@ == q.bytes@,
                (NodeKind::Mask(p), NodeKind::Mask(q)) => p.bytes@ == q.bytes@,
                (NodeKind::Text(t), NodeKind::Text(u)) => {
                    &&& t.confidence == u.confidence
                    &&& t.source_lang == u.source_lang
                    &&& match (t.source_direction, u.source_direction) {
                        (Some(p), Some(q)) => p.bytes@ == q.bytes@,
                        (None, None) => true,
                        _ => false,
                    }
                    &&& match (t.rendered_direction, u.rendered_direction) {
                        (Some(p), Some(q)) => p.bytes@ == q.bytes@,
                        (None, None) => true,
                        _ => false,
                    }
                    &&& match (t.line_polygons, u.line_polygons) {
                        (Some(p), Some(q)) => p@ == q@,
                        (None, None) => true,
                        _ => false,
                    }
                    &&& t.rotation_deg == u.rotation_deg
                    &&& t.detected_font_size_px == u.detected_font_size_px
                    &&& t.detector == u.detector
                    &&& t.text == u.text
                    &&& t.translation == u.translation
                    &&& match (t.style, u.style) {
                        (Some(p), Some(q)) => {
                            &&& p.font_families@ == q.font_families@
                            &&& p.font_size == q.font_size
                            &&& p.color == q.color
                            &&& p.effect == q.effect
                            &&& match (p.stroke, q.stroke) {
                                (Some(p), Some(q)) => p.bytes@ == q.bytes@,
                                (None, None) => true,
                                _ => false,
                            }
                            &&& match (p.text_align, q.text_align) {
                                (Some(p), Some(q)) => p.bytes@ == q.bytes@,
                                (None, None) => true,
                                _ => false,
                            }
                            &&& p.line_height == q.line_height
                            &&& p.letter_spacing == q.letter_spacing
                        },
                        (None, None) => true,
                        _ => false,
                    }
                    &&& match (t.font_prediction, u.font_prediction) {
                        (Some(p), Some(q)) => p.bytes@ == q.bytes@,
                        (None, None) => true,
                        _ => false,
                    }
                    &&& match (t.sprite, u.sprite) {
                        (Some(p), Some(q)) => p.bytes@ == q.bytes@,
                        (None, None) => true,
                        _ => false,
                    }
                    &&& t.sprite_transform == u.sprite_transform
                    &&& t.lock_layout_box == u.lock_layout_box
                },
                _ => false,
            }
        }),
{
    assert(maps::node_entries(a.nodes)[i].0 == maps::node_entries(b.nodes)[i].0);
}

/// Scenes that are alike have alike pages, so that a page of one can stand for the
/// page of the other at the same place.
pub proof fn law_same_scene_has_same_pages(a: Scene, b: Scene, i: int)
    requires
        same_scene(a, b),
        0 <= i < maps::page_entries(a.pages).len(),
    ensures
        same_page(maps::page_entries(a.pages)[i].1, maps::page_entries(b.pages)[i].1),
{
    assert(maps::page_entries(a.pages)[i].0 == maps::page_entries(b.pages)[i].0);
}

/// A style is set like itself; the relation holds both ways, and goes on from one to the
/// next.
pub proof fn law_same_style_is_an_equivalence(a: TextStyle, b: TextStyle, c: TextStyle)
    ensures
        same_style(a, a),
        same_style(a, b) ==> same_style(b, a),
        same_style(a, b) && same_style(b, c) ==> same_style(a, c),
{
}

/// A text is like itself; the relation holds both ways, and goes on from one to the
/// next.
pub proof fn law_same_text_is_an_equivalence(a: TextData, b: TextData, c: TextData)
    ensures
        same_text(a, a),
        same_text(a, b) ==> same_text(b, a),
        same_text(a, b) && same_text(b, c) ==> same_text(a, c),
{
}

/// A node is like itself; the relation holds both ways, and goes on from one to the
/// next.
pub proof fn law_same_node_is_an_equivalence(a: Node, b: Node, c: Node)
    ensures
        same_node(a, a),
        same_node(a, b) ==> same_node(b, a),
        same_node(a, b) && same_node(b, c) ==> same_node(a, c),
{
}

/// A page is like itself; the relation holds both ways, and goes on from one to the
/// next.
pub proof fn law_same_page_is_an_equivalence(a: Page, b: Page, c: Page)
    ensures
        same_page(a, a),
        same_page(a, b) ==> same_page(b, a),
        same_page(a, b) && same_page(b, c) ==> same_page(a, c),
{
    if same_page(a, b) {
        assert forall|i: int| 0 <= i < maps::node_entries(b.nodes).len() implies {
            &&& (#[trigger] maps::node_entries(b.nodes)[i]).0 == maps::node_entries(a.nodes)[i].0
            &&& same_node(maps::node_entries(b.nodes)[i].1, maps::node_entries(a.nodes)[i].1)
        } by {
            assert(maps::node_entries(a.nodes)[i].0 == maps::node_entries(b.nodes)[i].0);
        }
        if same_page(b, c) {
            assert forall|i: int| 0 <= i < maps::node_entries(a.nodes).len() implies {
                &&& (#[trigger] maps::node_entries(a.nodes)[i]).0 == maps::node_entries(
                    c.nodes,
                )[i].0
                &&& same_node(maps::node_entries(a.nodes)[i].1, maps::node_entries(c.nodes)[i].1)
            } by {
                assert(maps::node_entries(b.nodes)[i].0 == maps::node_entries(c.nodes)[i].0);
            }
        }
    }
}

/// A project is described like itself; the relation holds both ways, and goes on from one to the
/// next.
pub proof fn law_same_project_is_an_equivalence(a: ProjectMeta, b: ProjectMeta, c: ProjectMeta)
    ensures
        same_project(a, a),
        same_project(a, b) ==> same_project(b, a),
        same_project(a, b) && same_project(b, c) ==> same_project(a, c),
{
}

/// A scene is like itself; the relation holds both ways, and goes on from one to the
/// next.
pub proof fn law_same_scene_is_an_equivalence(a: Scene, b: Scene, c: Scene)
    ensures
        same_scene(a, a),
        same_scene(a, b) ==> same_scene(b, a),
        same_scene(a, b) && same_scene(b, c) ==> same_scene(a, c),
{
    let (x, y, z) = (
        maps::page_entries(a.pages),
        maps::page_entries(b.pages),
        maps::page_entries(c.pages),
    );
    assert forall|i: int| 0 <= i < x.len() implies same_page(
        (#[trigger] maps::page_entries(a.pages)[i]).1,
        x[i].1,
    ) by {
        law_same_page_is_an_equivalence(x[i].1, x[i].1, x[i].1);
    }
    if same_scene(a, b) {
        assert forall|i: int| 0 <= i < y.len() implies {
            &&& (#[trigger] maps::page_entries(b.pages)[i]).0 == x[i].0
            &&& same_page(y[i].1, x[i].1)
        } by {
            assert(maps::page_entries(a.pages)[i].0 == y[i].0);
            law_same_page_is_an_equivalence(x[i].1, y[i].1, x[i].1);
        }
        if same_scene(b, c) {
            assert forall|i: int| 0 <= i < x.len() implies {
                &&& (#[trigger] maps::page_entries(a.pages)[i]).0 == z[i].0
                &&& same_page(x[i].1, z[i].1)
            } by {
                assert(maps::page_entries(b.pages)[i].0 == z[i].0);
                law_same_page_is_an_equivalence(x[i].1, y[i].1, z[i].1);
            }
        }
    }
}

} // verus!
