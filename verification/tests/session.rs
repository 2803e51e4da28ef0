use indexmap::IndexMap;

use koharu_project::compaction::CompactStep;
use koharu_project::legacy::{
    LegacyNode, LegacyNodeKind, LegacyPage, LegacyScene, LegacyTextData, LegacyTextStyle,
    LineHeightTextStyle, NoLineHeightTextStyle,
};
use koharu_project::project::{project_path, ProjectError, ProjectFile};
use koharu_project::scene::{
    Encoded, Node, NodeKind, Page, ProjectMeta, Scene, Single, TextData, TextShaderEffect, TextStyle,
    Timestamp, Transform,
};
use koharu_project::session::{
    load_snapshot, FoundDirectory, LockAttempt, Opening, ProjectSession, ProjectToml, SceneFile,
    TomlFile,
};
use koharu_project::snapshot::{decode_legacy, decode_snapshot, frame_snapshot, Snapshot};

// A stored scene, field by field, as nested tuples.

type EffectTuple = Option<(bool, bool)>;
type BytesTuple = Option<Vec<u8>>;
type StyleTuple = (
    Vec<String>,
    Option<f32>,
    [u8; 4],
    EffectTuple,
    BytesTuple,
    BytesTuple,
    Option<f32>,
    Option<f32>,
);
type LineHeightTuple =
    (Vec<String>, Option<f32>, [u8; 4], EffectTuple, BytesTuple, BytesTuple, Option<f32>);
type NoLineHeightTuple = (Vec<String>, Option<f32>, [u8; 4], EffectTuple, BytesTuple, BytesTuple);
type PlaceTuple = (f32, f32, f32, f32, f32);
type TextTuple<S> = (
    f32,
    Option<String>,
    BytesTuple,
    BytesTuple,
    Option<Vec<[[f32; 2]; 4]>>,
    Option<f32>,
    Option<f32>,
    Option<String>,
    Option<String>,
    Option<String>,
    Option<S>,
    BytesTuple,
    BytesTuple,
    Option<PlaceTuple>,
    bool,
);
type NodeTuple<S> = (u128, PlaceTuple, bool, (BytesTuple, Option<TextTuple<S>>, BytesTuple));
type PageTuple<S> = (u128, String, u32, u32, Vec<(u128, NodeTuple<S>)>);
type MetaTuple = (String, (i64, u32), (i64, u32), Vec<u8>);
type SceneTuple<S> = (MetaTuple, Vec<(u128, PageTuple<S>)>);

fn float(s: Single) -> f32 {
    f32::from_bits(s.bits)
}

fn single(f: f32) -> Single {
    Single { bits: f.to_bits() }
}

fn bytes_of(e: &Option<Encoded>) -> BytesTuple {
    e.as_ref().map(|e| e.bytes.clone())
}

fn encoded(b: BytesTuple) -> Option<Encoded> {
    b.map(|bytes| Encoded { bytes })
}

fn place_of(t: Transform) -> PlaceTuple {
    (float(t.x), float(t.y), float(t.width), float(t.height), float(t.rotation_deg))
}

fn transform(p: PlaceTuple) -> Transform {
    Transform {
        x: single(p.0),
        y: single(p.1),
        width: single(p.2),
        height: single(p.3),
        rotation_deg: single(p.4),
    }
}

fn effect(e: EffectTuple) -> Option<TextShaderEffect> {
    e.map(|(italic, bold)| TextShaderEffect { italic, bold })
}

fn style_tuple(s: &TextStyle) -> StyleTuple {
    (
        s.font_families.clone(),
        s.font_size.map(float),
        s.color,
        s.effect.map(|e| (e.italic, e.bold)),
        bytes_of(&s.stroke),
        bytes_of(&s.text_align),
        s.line_height.map(float),
        s.letter_spacing.map(float),
    )
}

fn text_tuple(t: &TextData) -> TextTuple<StyleTuple> {
    (
        float(t.confidence),
        t.source_lang.clone(),
        bytes_of(&t.source_direction),
        bytes_of(&t.rendered_direction),
        t.line_polygons.as_ref().map(|v| v.iter().map(|p| p.map(|c| c.map(float))).collect()),
        t.rotation_deg.map(float),
        t.detected_font_size_px.map(float),
        t.detector.clone(),
        t.text.clone(),
        t.translation.clone(),
        t.style.as_ref().map(style_tuple),
        bytes_of(&t.font_prediction),
        bytes_of(&t.sprite),
        t.sprite_transform.map(place_of),
        t.lock_layout_box,
    )
}

fn node_tuple(n: &Node) -> NodeTuple<StyleTuple> {
    let kind = match &n.kind {
        NodeKind::Image(e) => (Some(e.bytes.clone()), None, None),
        NodeKind::Text(t) => (None, Some(text_tuple(t)), None),
        NodeKind::Mask(e) => (None, None, Some(e.bytes.clone())),
    };
    (n.id, place_of(n.transform), n.visible, kind)
}

fn meta_tuple(m: &ProjectMeta) -> MetaTuple {
    (
        m.name.clone(),
        (m.created_at.secs, m.created_at.nanos),
        (m.updated_at.secs, m.updated_at.nanos),
        m.settings.bytes.clone(),
    )
}

fn scene_tuple(s: &Scene) -> SceneTuple<StyleTuple> {
    let pages = s
        .pages
        .iter()
        .map(|(id, p)| {
            let nodes = p.nodes.iter().map(|(id, n)| (*id, node_tuple(n))).collect();
            (*id, (p.id, p.name.clone(), p.width, p.height, nodes))
        })
        .collect();
    (meta_tuple(&s.project), pages)
}

fn meta(m: MetaTuple) -> ProjectMeta {
    ProjectMeta {
        name: m.0,
        created_at: Timestamp { secs: m.1 .0, nanos: m.1 .1 },
        updated_at: Timestamp { secs: m.2 .0, nanos: m.2 .1 },
        settings: Encoded { bytes: m.3 },
    }
}

fn current_style(s: StyleTuple) -> TextStyle {
    TextStyle {
        font_families: s.0,
        font_size: s.1.map(single),
        color: s.2,
        effect: effect(s.3),
        stroke: encoded(s.4),
        text_align: encoded(s.5),
        line_height: s.6.map(single),
        letter_spacing: s.7.map(single),
    }
}

fn line_height_style(s: LineHeightTuple) -> LegacyTextStyle {
    LegacyTextStyle::LineHeight(LineHeightTextStyle {
        font_families: s.0,
        font_size: s.1.map(single),
        color: s.2,
        effect: effect(s.3),
        stroke: encoded(s.4),
        text_align: encoded(s.5),
        line_height: s.6.map(single),
    })
}

fn no_line_height_style(s: NoLineHeightTuple) -> LegacyTextStyle {
    LegacyTextStyle::NoLineHeight(NoLineHeightTextStyle {
        font_families: s.0,
        font_size: s.1.map(single),
        color: s.2,
        effect: effect(s.3),
        stroke: encoded(s.4),
        text_align: encoded(s.5),
    })
}

fn polygons(p: Option<Vec<[[f32; 2]; 4]>>) -> Option<Vec<[[Single; 2]; 4]>> {
    p.map(|v| v.iter().map(|p| p.map(|c| c.map(single))).collect())
}

fn current_text(t: TextTuple<StyleTuple>) -> TextData {
    TextData {
        confidence: single(t.0),
        source_lang: t.1,
        source_direction: encoded(t.2),
        rendered_direction: encoded(t.3),
        line_polygons: polygons(t.4),
        rotation_deg: t.5.map(single),
        detected_font_size_px: t.6.map(single),
        detector: t.7,
        text: t.8,
        translation: t.9,
        style: t.10.map(current_style),
        font_prediction: encoded(t.11),
        sprite: encoded(t.12),
        sprite_transform: t.13.map(transform),
        lock_layout_box: t.14,
    }
}

fn legacy_text<S>(t: TextTuple<S>, style: fn(S) -> LegacyTextStyle) -> LegacyTextData {
    LegacyTextData {
        confidence: single(t.0),
        source_lang: t.1,
        source_direction: encoded(t.2),
        rendered_direction: encoded(t.3),
        line_polygons: polygons(t.4),
        rotation_deg: t.5.map(single),
        detected_font_size_px: t.6.map(single),
        detector: t.7,
        text: t.8,
        translation: t.9,
        style: t.10.map(style),
        font_prediction: encoded(t.11),
        sprite: encoded(t.12),
        sprite_transform: t.13.map(transform),
        lock_layout_box: t.14,
    }
}

fn current_scene(s: SceneTuple<StyleTuple>) -> Scene {
    let mut pages = IndexMap::new();
    for (key, (id, name, width, height, entries)) in s.1 {
        let mut nodes = IndexMap::new();
        for (key, (id, place, visible, kind)) in entries {
            let kind = match kind {
                (Some(bytes), _, _) => NodeKind::Image(Encoded { bytes }),
                (_, Some(text), _) => NodeKind::Text(current_text(text)),
                (_, _, bytes) => NodeKind::Mask(Encoded { bytes: bytes.unwrap() }),
            };
            nodes.insert(key, Node { id, transform: transform(place), visible, kind });
        }
        pages.insert(key, Page { id, name, width, height, nodes });
    }
    Scene { project: meta(s.0), pages }
}

fn legacy_scene<S>(s: SceneTuple<S>, style: fn(S) -> LegacyTextStyle) -> LegacyScene {
    let mut pages = IndexMap::new();
    for (key, (id, name, width, height, entries)) in s.1 {
        let mut nodes = IndexMap::new();
        for (key, (id, place, visible, kind)) in entries {
            let kind = match kind {
                (Some(bytes), _, _) => LegacyNodeKind::Image(Encoded { bytes }),
                (_, Some(text), _) => LegacyNodeKind::Text(legacy_text(text, style)),
                (_, _, bytes) => LegacyNodeKind::Mask(Encoded { bytes: bytes.unwrap() }),
            };
            nodes.insert(key, LegacyNode { id, transform: transform(place), visible, kind });
        }
        pages.insert(key, LegacyPage { id, name, width, height, nodes });
    }
    LegacyScene { project: meta(s.0), pages }
}

fn encode_scene(s: &Scene) -> Option<Vec<u8>> {
    postcard::to_allocvec(&scene_tuple(s)).ok()
}

fn read_current(bytes: &[u8]) -> Option<Scene> {
    postcard::from_bytes::<SceneTuple<StyleTuple>>(bytes).ok().map(current_scene)
}

fn read_line_height(bytes: &[u8]) -> Option<LegacyScene> {
    postcard::from_bytes::<SceneTuple<LineHeightTuple>>(bytes)
        .ok()
        .map(|s| legacy_scene(s, line_height_style))
}

fn read_no_line_height(bytes: &[u8]) -> Option<LegacyScene> {
    postcard::from_bytes::<SceneTuple<NoLineHeightTuple>>(bytes)
        .ok()
        .map(|s| legacy_scene(s, no_line_height_style))
}

// A disk, as far as a session needs one, and a history that adds pages.

struct Disk {
    toml: Option<(String, Timestamp, Timestamp)>,
    scene: Option<Vec<u8>>,
    locked: bool,
}

impl Disk {
    fn new() -> Self {
        Disk { toml: None, scene: None, locked: false }
    }
}

#[derive(Debug)]
struct History {
    epoch: u64,
    added: Vec<u128>,
}

#[derive(Debug)]
struct Blobs;

#[derive(Debug)]
struct Lock;

type Session = ProjectSession<History, Blobs, Lock>;

fn proceed(opening: Opening, disk: &mut Disk) -> Result<Session, ProjectError> {
    let prepared = opening.directories(true)?;
    let attempt = if disk.locked {
        LockAttempt::Refused
    } else {
        disk.locked = true;
        LockAttempt::Held(Lock)
    };
    let stocked = prepared.locked(attempt)?.stocked(Some(Blobs))?;
    let scene_file = match &disk.scene {
        Some(bytes) => SceneFile::Read(bytes.clone()),
        None => SceneFile::Missing,
    };
    let toml = disk.toml.clone();
    let toml_file = move || match toml {
        Some((name, created_at, updated_at)) => {
            TomlFile::Parsed(ProjectToml { name, created_at, updated_at })
        }
        None => TomlFile::Missing,
    };
    let loaded =
        stocked.load(scene_file, toml_file, read_current, read_line_height, read_no_line_height)?;
    let loaded = loaded.replayed(|epoch, _scene| Some(epoch))?;
    loaded.opened(|epoch| Some(History { epoch, added: Vec::new() }))
}

fn create(disk: &mut Disk, name: &str) -> Result<Session, ProjectError> {
    let found = if disk.toml.is_none() && disk.scene.is_none() {
        FoundDirectory::Absent
    } else {
        FoundDirectory::NotEmpty
    };
    let new = Session::create("/p".to_string(), name.to_string(), found)?;
    disk.toml = Some((new.toml.name, new.toml.created_at, new.toml.updated_at));
    proceed(new.opening, disk)
}

fn open(disk: &mut Disk) -> Result<Session, ProjectError> {
    proceed(Session::open("/p".to_string(), true)?, disk)
}

fn add_page(history: &mut History, scene: &mut Scene, op: (Page, usize)) -> Result<u64, String> {
    let (page, at) = op;
    if scene.pages.contains_key(&page.id) {
        return Err("page exists".to_string());
    }
    history.added.push(page.id);
    history.epoch += 1;
    scene.pages.shift_insert(at, page.id, page);
    Ok(history.epoch)
}

fn take_back(history: &mut History, scene: &mut Scene) -> Result<Option<(u64, u128)>, String> {
    match history.added.pop() {
        Some(id) => {
            scene.pages.shift_remove(&id);
            history.epoch += 1;
            Ok(Some((history.epoch, id)))
        }
        None => Ok(None),
    }
}

fn compact(session: &Session, disk: &mut Disk) -> Result<(), ProjectError> {
    let bytes = session.compact(|h: &History| h.epoch, encode_scene)?;
    let mut step = CompactStep::WriteScene;
    while step != CompactStep::Finished {
        if step == CompactStep::WriteScene {
            disk.scene = Some(bytes.clone());
        }
        step = step.next(true)?;
    }
    Ok(())
}

fn page(id: u128, name: &str, width: u32, height: u32) -> Page {
    Page { id, name: name.to_string(), width, height, nodes: IndexMap::new() }
}

fn plain_style() -> TextStyle {
    TextStyle {
        font_families: vec!["Arial".to_string()],
        font_size: Some(single(20.0)),
        color: [0, 0, 0, 255],
        effect: Some(TextShaderEffect { italic: true, bold: true }),
        stroke: None,
        text_align: None,
        line_height: None,
        letter_spacing: None,
    }
}

fn text_node(id: u128, style: TextStyle) -> Node {
    Node {
        id,
        transform: transform((0.0, 0.0, 100.0, 40.0, 0.0)),
        visible: true,
        kind: NodeKind::Text(TextData {
            confidence: single(0.0),
            source_lang: None,
            source_direction: None,
            rendered_direction: None,
            line_polygons: None,
            rotation_deg: None,
            detected_font_size_px: None,
            detector: None,
            text: None,
            translation: None,
            style: Some(style),
            font_prediction: None,
            sprite: None,
            sprite_transform: None,
            lock_layout_box: false,
        }),
    }
}

#[test]
fn create_apply_close_reopen_preserves_scene() {
    let mut disk = Disk::new();
    let page_id: u128;
    {
        let mut session = create(&mut disk, "test").unwrap();
        let page = page(11, "p1", 800, 600);
        page_id = page.id;
        session.apply((page, 0), add_page).expect("apply AddPage");
        compact(&session, &mut disk).unwrap();
        disk.locked = false;
    }
    let session = open(&mut disk).unwrap();
    assert_eq!(session.scene.pages.len(), 1);
    assert!(session.scene.pages.contains_key(&page_id));
    assert_eq!(session.scene.project.name, "test");
    assert_eq!(session.epoch(|h: &History| h.epoch), 1);
}

#[test]
fn reopen_preserves_text_style_effects_in_scene_bin() {
    let mut disk = Disk::new();
    let page_id: u128;
    let node_id: u128 = 22;
    {
        let mut session = create(&mut disk, "styled").unwrap();
        let page = page(11, "p1", 800, 600);
        page_id = page.id;
        session.apply((page, 0), add_page).expect("apply AddPage");
        let page = session.scene.pages.get_mut(&page_id).expect("page");
        page.nodes.insert(node_id, text_node(node_id, plain_style()));
        compact(&session, &mut disk).unwrap();
        disk.locked = false;
    }

    let session = open(&mut disk).unwrap();
    let page = session.scene.pages.get(&page_id).expect("page");
    let node = page.nodes.get(&node_id).expect("node");
    let NodeKind::Text(text) = &node.kind else {
        panic!("expected text node");
    };
    let effect = text.style.as_ref().and_then(|style| style.effect).expect("effect");
    assert!(effect.italic);
    assert!(effect.bold);
}

const CENTER: u8 = 1;

fn legacy_bytes<S>(style: S) -> Vec<u8>
where
    Vec<(u128, PageTuple<S>)>: Sized,
    SceneTuple<S>: serde::Serialize,
{
    let text: TextTuple<S> = (
        0.0,
        None,
        None,
        None,
        None,
        None,
        None,
        None,
        None,
        None,
        Some(style),
        Some(vec![3, 5, 9]),
        None,
        None,
        false,
    );
    let node: NodeTuple<S> = (22, (0.0, 0.0, 100.0, 40.0, 0.0), true, (None, Some(text), None));
    let page: PageTuple<S> = (11, "legacy".to_string(), 800, 600, vec![(22, node)]);
    let project: MetaTuple = (String::new(), (0, 0), (0, 0), Vec::new());
    let scene: SceneTuple<S> = (project, vec![(11, page)]);
    postcard::to_allocvec(&(7u64, scene)).expect("encode legacy snapshot")
}

fn bytes_without_line_height() -> Vec<u8> {
    let style: NoLineHeightTuple = (
        vec!["Arial".to_string()],
        Some(20.0),
        [0, 0, 0, 255],
        Some((true, true)),
        None,
        Some(vec![CENTER]),
    );
    legacy_bytes(style)
}

fn bytes_without_letter_spacing() -> Vec<u8> {
    let style: LineHeightTuple = (
        vec!["Arial".to_string()],
        Some(20.0),
        [0, 0, 0, 255],
        Some((true, true)),
        None,
        Some(vec![CENTER]),
        Some(1.2),
    );
    legacy_bytes(style)
}

#[test]
fn open_decodes_legacy_text_style_without_line_height() {
    let mut disk = Disk::new();
    disk.scene = Some(bytes_without_line_height());

    let session = open(&mut disk).unwrap();
    let page = session.scene.pages.get(&11).expect("page");
    let node = page.nodes.get(&22).expect("node");
    let NodeKind::Text(text) = &node.kind else {
        panic!("expected text node");
    };
    let style = text.style.as_ref().expect("style");
    assert_eq!(style.text_align.as_ref().unwrap().bytes, [CENTER]);
    assert_eq!(style.line_height, None);
    assert_eq!(style.letter_spacing, None);
    assert!(text.font_prediction.is_some());
    assert_eq!(page.name, "legacy");
    assert_eq!((page.width, page.height), (800, 600));
    assert_eq!(session.history.epoch, 7);
}

#[test]
fn open_decodes_legacy_text_style_without_letter_spacing() {
    let mut disk = Disk::new();
    disk.scene = Some(bytes_without_letter_spacing());

    let session = open(&mut disk).unwrap();
    let page = session.scene.pages.get(&11).expect("page");
    let node = page.nodes.get(&22).expect("node");
    let NodeKind::Text(text) = &node.kind else {
        panic!("expected text node");
    };
    let style = text.style.as_ref().expect("style");
    assert_eq!(style.text_align.as_ref().unwrap().bytes, [CENTER]);
    assert_eq!(style.line_height, Some(single(1.2)));
    assert_eq!(style.letter_spacing, None);
    assert!(text.font_prediction.is_some());
}

#[test]
fn exclusive_lock_prevents_second_open() {
    let mut disk = Disk::new();
    let a = create(&mut disk, "test").unwrap();
    let err = open(&mut disk).err().expect("second open must fail");
    assert_eq!(err, ProjectError::AlreadyOpen);
    assert!(err.contexts("/p")[0].contains("already open"));
    drop(a);
}

#[test]
fn files_of_a_project_lie_in_its_directory() {
    assert_eq!(project_path("/p", ProjectFile::Toml), "/p/project.toml");
    assert_eq!(project_path("/p", ProjectFile::Scene), "/p/scene.bin");
    assert_eq!(project_path("/p", ProjectFile::Log), "/p/history.log");
    assert_eq!(project_path("/p", ProjectFile::Lock), "/p/.lock");
    assert_eq!(project_path("/p", ProjectFile::Blobs), "/p/blobs");
    assert_eq!(project_path("/p", ProjectFile::Cache), "/p/cache");
}

#[test]
fn errors_say_what_failed() {
    let said = |e: ProjectError| e.contexts("/p");
    assert_eq!(said(ProjectError::NotAProjectDirectory), ["not a project directory: /p"]);
    assert_eq!(said(ProjectError::CreateDirectory), ["create project dir /p"]);
    assert_eq!(said(ProjectError::AlreadyExists), ["project directory already exists: /p"]);
    assert_eq!(said(ProjectError::DirectoryNotEmpty), ["project directory not empty: /p"]);
    assert_eq!(said(ProjectError::OpenLockFile), ["open lock file /p/.lock"]);
    assert_eq!(said(ProjectError::AlreadyOpen), ["project is already open elsewhere"]);
    assert_eq!(said(ProjectError::ReadScene), ["read /p/scene.bin"]);
    assert_eq!(
        said(ProjectError::DecodeScene),
        [
            "decode /p/scene.bin",
            "decode legacy /p/scene.bin",
            "decode legacy text style without line height",
        ]
    );
    assert_eq!(said(ProjectError::MissingToml), ["missing project.toml at /p/project.toml"]);
    assert_eq!(said(ProjectError::ParseToml), ["parse /p/project.toml"]);
    assert_eq!(said(ProjectError::ReplayLog), ["replay log /p/history.log"]);
    assert_eq!(said(ProjectError::EncodeSnapshot), ["encode snapshot"]);
    assert_eq!(said(ProjectError::WriteScene), ["write scene.bin atomically"]);
    assert!(said(ProjectError::Other).is_empty());
}

#[test]
fn opening_needs_a_directory() {
    let error = Session::open("/p".to_string(), false).unwrap_err();
    assert_eq!(error, ProjectError::NotAProjectDirectory);
    let opening = Session::open("/p".to_string(), true).unwrap();
    assert!(!opening.creating);
    assert_eq!(opening.dir, "/p");
}

#[test]
fn creating_fails_where_the_directory_exists() {
    let attempt = |found| Session::create("/p".to_string(), "n".to_string(), found);
    let error = attempt(FoundDirectory::NotEmpty).unwrap_err();
    assert_eq!(error, ProjectError::DirectoryNotEmpty);
    assert_eq!(error.contexts("/p"), ["project directory not empty: /p"]);
    let error = attempt(FoundDirectory::Empty).unwrap_err();
    assert_eq!(error, ProjectError::AlreadyExists);
    assert_eq!(error.contexts("/p"), ["project directory already exists: /p"]);
    let new = attempt(FoundDirectory::Absent).unwrap();
    assert!(new.opening.creating);
    assert_eq!(new.toml.name, "n");
    assert!(new.toml.created_at.secs > 1_500_000_000);
    assert!(new.toml.updated_at.nanos < 1_000_000_000);
}

#[test]
fn each_step_of_opening_can_fail() {
    let opening = || Session::open("/p".to_string(), true).unwrap();
    assert_eq!(opening().directories(false).unwrap_err(), ProjectError::Other);
    let prepared = opening().directories(true).unwrap();
    let attempt: LockAttempt<Lock> = LockAttempt::NotOpened;
    assert_eq!(prepared.locked(attempt).unwrap_err(), ProjectError::OpenLockFile);
    let locked = opening().directories(true).unwrap().locked(LockAttempt::Held(Lock)).unwrap();
    let blobs: Option<Blobs> = None;
    assert_eq!(locked.stocked(blobs).unwrap_err(), ProjectError::Other);
    let stocked = || {
        let locked = opening().directories(true).unwrap().locked(LockAttempt::Held(Lock)).unwrap();
        locked.stocked(Some(Blobs)).unwrap()
    };
    let toml = || TomlFile::Missing;
    let error = stocked()
        .load(SceneFile::Missing, toml, read_current, read_line_height, read_no_line_height)
        .unwrap_err();
    assert_eq!(error, ProjectError::MissingToml);
    let file = SceneFile::Read(frame_snapshot(5, encode_scene(&empty_scene()).unwrap()).unwrap());
    let loaded = stocked()
        .load(file, toml, read_current, read_line_height, read_no_line_height)
        .unwrap();
    assert_eq!(loaded.epoch, 5);
    assert_eq!(loaded.replayed(|_, _| None).unwrap_err(), ProjectError::ReplayLog);
    let file = SceneFile::Read(frame_snapshot(5, encode_scene(&empty_scene()).unwrap()).unwrap());
    let loaded = stocked()
        .load(file, toml, read_current, read_line_height, read_no_line_height)
        .unwrap();
    let error = loaded.opened(|_| -> Option<History> { None }).unwrap_err();
    assert_eq!(error, ProjectError::Other);
}

fn empty_scene() -> Scene {
    Scene {
        project: ProjectMeta {
            name: "n".to_string(),
            created_at: Timestamp { secs: 1, nanos: 2 },
            updated_at: Timestamp { secs: 3, nanos: 4 },
            settings: Encoded { bytes: vec![1, 2] },
        },
        pages: IndexMap::new(),
    }
}

fn load(creating: bool, scene: SceneFile, toml: TomlFile) -> Result<Snapshot, ProjectError> {
    load_snapshot(
        creating,
        scene,
        move || toml,
        read_current,
        read_line_height,
        read_no_line_height,
    )
}

#[test]
fn replay_starts_from_the_snapshot_and_gives_the_epoch() {
    let stocked = Session::open("/p".to_string(), true)
        .unwrap()
        .directories(true)
        .unwrap()
        .locked(LockAttempt::Held(Lock))
        .unwrap()
        .stocked(Some(Blobs))
        .unwrap();
    let file = SceneFile::Read(frame_snapshot(5, encode_scene(&empty_scene()).unwrap()).unwrap());
    let toml = || TomlFile::Missing;
    let loaded = stocked
        .load(file, toml, read_current, read_line_height, read_no_line_height)
        .unwrap();
    let loaded = loaded
        .replayed(|epoch, scene| {
            assert_eq!(epoch, 5);
            scene.pages.insert(1, page(1, "replayed", 1, 1));
            Some(6)
        })
        .unwrap();
    assert_eq!(loaded.epoch, 6);
    let session = loaded.opened(|epoch| Some(History { epoch, added: Vec::new() })).unwrap();
    assert_eq!(session.history.epoch, 6);
    assert!(session.scene.pages.contains_key(&1));
}

#[test]
fn description_decides_where_there_is_no_snapshot() {
    let toml = |name: &str| {
        TomlFile::Parsed(ProjectToml {
            name: name.to_string(),
            created_at: Timestamp { secs: 10, nanos: 1 },
            updated_at: Timestamp { secs: 20, nanos: 2 },
        })
    };
    for creating in [false, true] {
        let snapshot = load(creating, SceneFile::Missing, toml("mine")).unwrap();
        assert_eq!(snapshot.epoch, 0);
        assert_eq!(snapshot.scene.project.name, "mine");
        assert_eq!(snapshot.scene.project.created_at, Timestamp { secs: 10, nanos: 1 });
        assert_eq!(snapshot.scene.project.updated_at, Timestamp { secs: 20, nanos: 2 });
        assert!(snapshot.scene.project.settings.bytes.is_empty());
        assert!(snapshot.scene.pages.is_empty());
        let error = load(creating, SceneFile::Missing, TomlFile::Malformed).unwrap_err();
        assert_eq!(error, ProjectError::ParseToml);
        let error = load(creating, SceneFile::Missing, TomlFile::Unreadable).unwrap_err();
        assert_eq!(error, ProjectError::Other);
    }
}

#[test]
fn only_a_new_project_may_lack_a_description() {
    let error = load(false, SceneFile::Missing, TomlFile::Missing).unwrap_err();
    assert_eq!(error, ProjectError::MissingToml);
    let snapshot = load(true, SceneFile::Missing, TomlFile::Missing).unwrap();
    assert_eq!(snapshot.epoch, 0);
    assert_eq!(snapshot.scene.project.name, "");
    assert!(snapshot.scene.project.created_at.secs > 1_500_000_000);
    assert!(snapshot.scene.pages.is_empty());
}

#[test]
fn snapshot_takes_precedence_over_the_description() {
    let bytes = frame_snapshot(9, encode_scene(&empty_scene()).unwrap()).unwrap();
    let snapshot = load(false, SceneFile::Read(bytes), TomlFile::Malformed).unwrap();
    assert_eq!(snapshot.epoch, 9);
    assert_eq!(snapshot.scene.project.name, "n");
    let error = load(true, SceneFile::Unreadable, TomlFile::Missing).unwrap_err();
    assert_eq!(error, ProjectError::ReadScene);
}

#[test]
fn unknown_formats_are_an_error() {
    for bytes in [vec![], vec![0x80], vec![0xff; 12], vec![1, 0xff, 0xff]] {
        let error = load(false, SceneFile::Read(bytes), TomlFile::Missing).unwrap_err();
        assert_eq!(error, ProjectError::DecodeScene);
    }
}

#[test]
fn formats_are_tried_from_the_newest_to_the_oldest() {
    let named = |name: &str| {
        let mut scene = empty_scene();
        scene.project.name = name.to_string();
        scene
    };
    let legacy = |name: &str| LegacyScene {
        project: named(name).project,
        pages: IndexMap::new(),
    };
    let name = |s: Option<Snapshot>| s.map(|s| s.scene.project.name);
    let bytes = [3u8, 42];
    let r = decode_snapshot(
        &bytes,
        |b: &[u8]| {
            assert_eq!(b, &[42u8]);
            Some(named("now"))
        },
        |_: &[u8]| panic!("not asked"),
        |_: &[u8]| panic!("not asked"),
    );
    assert_eq!(name(r).unwrap(), "now");
    let r = decode_snapshot(
        &bytes,
        |_: &[u8]| None,
        |_: &[u8]| Some(legacy("newer")),
        |_: &[u8]| panic!("not asked"),
    );
    assert_eq!(r.as_ref().unwrap().epoch, 3);
    assert_eq!(name(r).unwrap(), "newer");
    let r = decode_legacy(4, &bytes, |_: &[u8]| None, |_: &[u8]| Some(legacy("older")));
    assert_eq!(r.as_ref().unwrap().epoch, 4);
    assert_eq!(name(r).unwrap(), "older");
    assert!(decode_legacy(4, &bytes, |_: &[u8]| None, |_: &[u8]| None).is_none());
}

#[test]
fn snapshot_file_is_the_epoch_and_then_the_scene() {
    assert_eq!(frame_snapshot(0, vec![9]).unwrap(), [0, 9]);
    assert_eq!(frame_snapshot(127, vec![]).unwrap(), [127]);
    assert_eq!(frame_snapshot(300, vec![1, 2]).unwrap(), [0xac, 2, 1, 2]);
    let most = frame_snapshot(u64::MAX, vec![]).unwrap();
    assert_eq!(most, [255, 255, 255, 255, 255, 255, 255, 255, 255, 1]);
    for epoch in [0u64, 1, 128, 16_384, u64::MAX] {
        let whole = postcard::to_allocvec(&(epoch, scene_tuple(&empty_scene()))).unwrap();
        let framed = frame_snapshot(epoch, encode_scene(&empty_scene()).unwrap()).unwrap();
        assert_eq!(framed, whole);
    }
}

#[test]
fn framed_snapshot_reads_back() {
    for epoch in [0u64, 5, 127, 128, 1 << 35, u64::MAX - 1, u64::MAX] {
        let bytes = frame_snapshot(epoch, encode_scene(&empty_scene()).unwrap()).unwrap();
        let read =
            decode_snapshot(&bytes, read_current, read_line_height, read_no_line_height).unwrap();
        assert_eq!(read.epoch, epoch);
        assert_eq!(encode_scene(&read.scene), encode_scene(&empty_scene()));
    }
}

#[test]
fn epoch_of_more_than_sixty_four_bits_is_refused() {
    let none = |_: &[u8]| -> Option<LegacyScene> { None };
    let some = |_: &[u8]| Some(empty_scene());
    let long = [0xffu8, 0xff, 0xff, 0xff, 0xff, 0xff, 0xff, 0xff, 0xff, 2];
    assert!(decode_snapshot(&long, some, none, none).is_none());
    let padded = [0x85u8, 0x80, 0, 7];
    assert_eq!(decode_snapshot(&padded, some, none, none).unwrap().epoch, 5);
    assert!(decode_snapshot(&[], some, none, none).is_none());
}

#[test]
fn edits_go_through_the_history() {
    let mut disk = Disk::new();
    let mut session = create(&mut disk, "test").unwrap();
    assert_eq!(session.apply((page(1, "a", 1, 1), 0), add_page), Ok(1));
    assert_eq!(session.apply((page(2, "b", 1, 1), 0), add_page), Ok(2));
    let order: Vec<u128> = session.scene.pages.keys().copied().collect();
    assert_eq!(order, [2, 1]);
    let refused = session.apply((page(2, "b", 1, 1), 0), add_page);
    assert_eq!(refused, Err("page exists".to_string()));
    assert_eq!(session.undo(take_back), Ok(Some((3, 2))));
    assert_eq!(session.epoch(|h: &History| h.epoch), 3);
    let again = |history: &mut History, scene: &mut Scene| -> Result<Option<(u64, u128)>, String> {
        let epoch = add_page(history, scene, (page(2, "b", 1, 1), 0))?;
        Ok(Some((epoch, 2)))
    };
    assert_eq!(session.redo(again), Ok(Some((4, 2))));
    assert_eq!(session.scene.pages.len(), 2);
    assert_eq!(session.undo(take_back), Ok(Some((5, 2))));
    assert_eq!(session.undo(take_back), Ok(Some((6, 1))));
    assert_eq!(session.undo(take_back), Ok(None));
}

#[test]
fn snapshot_of_the_scene_is_a_copy_of_its_own() {
    let mut disk = Disk::new();
    let mut session = create(&mut disk, "test").unwrap();
    let mut first = page(1, "a", 8, 6);
    let mut style = plain_style();
    style.stroke = Some(Encoded { bytes: vec![7] });
    first.nodes.insert(5, text_node(5, style));
    first.nodes.insert(
        4,
        Node {
            id: 4,
            transform: transform((1.0, 2.0, 3.0, 4.0, 5.0)),
            visible: false,
            kind: NodeKind::Image(Encoded { bytes: vec![1, 2, 3] }),
        },
    );
    first.nodes.insert(
        3,
        Node {
            id: 3,
            transform: transform((0.5, 0.5, 0.5, 0.5, 0.5)),
            visible: true,
            kind: NodeKind::Mask(Encoded { bytes: vec![] }),
        },
    );
    if let NodeKind::Text(text) = &mut first.nodes.get_mut(&5).unwrap().kind {
        text.line_polygons = Some(vec![[[single(1.0), single(2.0)]; 4]]);
        text.source_lang = Some("ja".to_string());
        text.sprite_transform = Some(transform((9.0, 8.0, 7.0, 6.0, 5.0)));
    }
    session.apply((first, 0), add_page).unwrap();
    session.apply((page(2, "b", 1, 1), 0), add_page).unwrap();
    let copy = session.scene_snapshot();
    assert_eq!(encode_scene(&copy), encode_scene(&session.scene));
    let keys: Vec<u128> = copy.pages.keys().copied().collect();
    assert_eq!(keys, [2, 1]);
    session.undo(take_back).unwrap();
    assert_eq!(copy.pages.len(), 2);
    assert_eq!(session.scene.pages.len(), 1);
}

#[test]
fn migration_keeps_everything_but_the_style() {
    let mut nodes = IndexMap::new();
    for (id, kind) in [
        (9u128, LegacyNodeKind::Image(Encoded { bytes: vec![1] })),
        (8, LegacyNodeKind::Mask(Encoded { bytes: vec![2] })),
    ] {
        let transform = transform((1.0, 2.0, 3.0, 4.0, 5.0));
        nodes.insert(id, LegacyNode { id, transform, visible: false, kind });
    }
    let mut pages = IndexMap::new();
    for id in [7u128, 6, 5] {
        let nodes = if id == 6 { std::mem::take(&mut nodes) } else { IndexMap::new() };
        let name = format!("page {id}");
        pages.insert(id, LegacyPage { id, name, width: 3, height: 4, nodes });
    }
    let scene = LegacyScene { project: empty_scene().project, pages }.into_current();
    let keys: Vec<u128> = scene.pages.keys().copied().collect();
    assert_eq!(keys, [7, 6, 5]);
    assert_eq!(meta_tuple(&scene.project), meta_tuple(&empty_scene().project));
    let page = &scene.pages[&6];
    assert_eq!((page.id, page.name.as_str(), page.width, page.height), (6, "page 6", 3, 4));
    let keys: Vec<u128> = page.nodes.keys().copied().collect();
    assert_eq!(keys, [9, 8]);
    assert!(matches!(&page.nodes[&9].kind, NodeKind::Image(e) if e.bytes == [1]));
    assert!(matches!(&page.nodes[&8].kind, NodeKind::Mask(e) if e.bytes == [2]));
    assert!(!page.nodes[&8].visible);
}

#[test]
fn compaction_writes_before_it_truncates() {
    let step = CompactStep::WriteScene;
    assert_eq!(step.next(true), Ok(CompactStep::TruncateLog));
    assert_eq!(step.next(false), Err(ProjectError::WriteScene));
    let step = CompactStep::TruncateLog;
    assert_eq!(step.next(true), Ok(CompactStep::Finished));
    assert_eq!(step.next(false), Err(ProjectError::Other));
    assert_eq!(CompactStep::Finished.next(true), Ok(CompactStep::Finished));
}

#[test]
fn interrupted_compaction_leaves_a_project_that_opens_alike() {
    // The disk holds a snapshot and a log of pages added since.
    let frames: Vec<(u64, u128)> = vec![(1, 10), (2, 20), (3, 30)];
    let old = frame_snapshot(1, vec![10]).unwrap();
    let recover = |file: &[u8], log: &[(u64, u128)]| -> (u64, Vec<u128>) {
        let (mut epoch, body) = postcard::take_from_bytes::<u64>(file).unwrap();
        let mut state: Vec<u128> = body.iter().map(|b| *b as u128).collect();
        let from = epoch;
        for (e, id) in log {
            if *e > from {
                state.push(*id);
                epoch = *e;
            }
        }
        (epoch, state)
    };
    let shown = recover(&old, &frames);
    assert_eq!(shown, (3, vec![10, 20, 30]));
    let new = frame_snapshot(3, vec![10, 20, 30]).unwrap();
    for steps in 0..4 {
        let (mut file, mut log) = (old.clone(), frames.clone());
        let mut step = CompactStep::WriteScene;
        for _ in 0..steps {
            match step {
                CompactStep::WriteScene => file = new.clone(),
                CompactStep::TruncateLog => log.clear(),
                CompactStep::Finished => {}
            }
            step = step.next(true).unwrap();
        }
        assert_eq!(recover(&file, &log), shown);
    }
}

#[test]
fn scene_that_cannot_be_serialised_stops_a_compaction() {
    let mut disk = Disk::new();
    let session = create(&mut disk, "test").unwrap();
    let error = session.compact(|h: &History| h.epoch, |_: &Scene| None).unwrap_err();
    assert_eq!(error, ProjectError::EncodeSnapshot);
    let bytes = session.compact(|_: &History| 300, |_: &Scene| Some(vec![5])).unwrap();
    assert_eq!(bytes, [0xac, 2, 5]);
}

#[test]
fn log_alone_restores_the_edits() {
    let mut disk = Disk::new();
    let mut session = create(&mut disk, "logged").unwrap();
    let mut log: Vec<(u64, Page, usize)> = Vec::new();
    for (id, at) in [(1u128, 0usize), (2, 0), (3, 1)] {
        let epoch = session.apply((page(id, "p", 8, 6), at), add_page).unwrap();
        assert_eq!(session.epoch(|h: &History| h.epoch), epoch);
        log.push((epoch, page(id, "p", 8, 6), at));
    }
    let stocked = Session::open("/p".to_string(), true)
        .unwrap()
        .directories(true)
        .unwrap()
        .locked(LockAttempt::Held(Lock))
        .unwrap()
        .stocked(Some(Blobs))
        .unwrap();
    let (name, created_at, updated_at) = disk.toml.clone().unwrap();
    let toml = move || TomlFile::Parsed(ProjectToml { name, created_at, updated_at });
    let reopened = stocked
        .load(SceneFile::Missing, toml, read_current, read_line_height, read_no_line_height)
        .unwrap()
        .replayed(|from, scene| {
            let mut last = from;
            for (epoch, page, at) in log {
                if epoch > from {
                    scene.pages.shift_insert(at, page.id, page);
                    last = epoch;
                }
            }
            Some(last)
        })
        .unwrap();
    assert_eq!(reopened.epoch, 3);
    assert_eq!(reopened.scene.project.name, "logged");
    let order: Vec<u128> = reopened.scene.pages.keys().copied().collect();
    assert_eq!(order, [2, 3, 1]);
    assert_eq!(encode_scene(&reopened.scene), encode_scene(&session.scene));
}

#[test]
fn epoch_survives_compaction_and_reopening() {
    let mut disk = Disk::new();
    let mut session = create(&mut disk, "test").unwrap();
    for id in 1..=3u128 {
        session.apply((page(id, "p", 1, 1), 0), add_page).unwrap();
    }
    let epoch = session.epoch(|h: &History| h.epoch);
    assert_eq!(epoch, 3);
    compact(&session, &mut disk).unwrap();
    assert_eq!(session.epoch(|h: &History| h.epoch), epoch);
    disk.locked = false;
    let reopened = open(&mut disk).unwrap();
    assert_eq!(reopened.epoch(|h: &History| h.epoch), epoch);
    assert_eq!(encode_scene(&reopened.scene), encode_scene(&session.scene));
}

#[test]
fn interrupted_compaction_reopens_to_the_same_scene() {
    let mut disk = Disk::new();
    let mut session = create(&mut disk, "test").unwrap();
    let mut log: Vec<(u64, u128)> = Vec::new();
    for id in 1..=2u128 {
        let epoch = session.apply((page(id, "p", 1, 1), 0), add_page).unwrap();
        log.push((epoch, id));
    }
    let bytes = session.compact(|h: &History| h.epoch, encode_scene).unwrap();
    let reopen = |scene: Option<Vec<u8>>, log: Vec<(u64, u128)>| {
        let (name, created_at, updated_at) = disk.toml.clone().unwrap();
        let toml = TomlFile::Parsed(ProjectToml { name, created_at, updated_at });
        let file = match scene {
            Some(bytes) => SceneFile::Read(bytes),
            None => SceneFile::Missing,
        };
        let loaded = load(false, file, toml).unwrap();
        let mut scene = loaded.scene;
        let mut last = loaded.epoch;
        for (epoch, id) in log {
            if epoch > loaded.epoch {
                scene.pages.shift_insert(0, id, page(id, "p", 1, 1));
                last = epoch;
            }
        }
        (encode_scene(&scene).unwrap(), last)
    };
    let expected = (encode_scene(&session.scene).unwrap(), 2);
    assert_eq!(reopen(None, log.clone()), expected);
    assert_eq!(reopen(Some(bytes.clone()), log), expected);
    assert_eq!(reopen(Some(bytes), Vec::new()), expected);
}
