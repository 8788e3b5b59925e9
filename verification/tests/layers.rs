use shojiwm_backend::background::{
    plan_layer_background, Captured, LayerBackground, LayerError, LayerReply, LayerScene,
    LowerScene,
};
use shojiwm_backend::cache::LayerBackdrop;
use shojiwm_backend::effects::{EffectInput, EffectTraits};
use shojiwm_backend::geometry::{LogicalPoint, LogicalRect};
use shojiwm_backend::layerpass::{
    lower_layer_scene_elements, upper_layer_scene_elements, LayerContent, LayerElement, LowerLayer,
    UpperEffect, UpperLayer,
};
use shojiwm_backend::table::NameTable;

const OUTPUT: LogicalRect = LogicalRect { x: 0, y: 0, width: 1920, height: 1080 };
const CORNER: LogicalPoint = LogicalPoint { x: 0, y: 0 };

fn effect() -> EffectTraits {
    EffectTraits {
        input: EffectInput::Other,
        blur: None,
        uses_backdrop: true,
        uses_xray: false,
        uses_layer_source: false,
        uses_popup_source: false,
        is_backdrop: true,
        supports_framebuffer_backdrop: false,
        supports_popup_framebuffer_backdrop: false,
        always_invalidated: false,
    }
}

fn background(x: i32) -> Option<LayerBackground> {
    let rects = vec![LogicalRect::new(x, 0, 50, 50)];
    plan_layer_background(None, Some(effect()), None, rects, OUTPUT)
}

fn reply(ids: &[u64]) -> LayerReply<'_> {
    LayerReply {
        damaged: false,
        layer_source: Captured::Missing,
        drawn: true,
        shown: true,
        fresh_id: 90,
        fresh_ids: ids,
    }
}

fn content(popups: Vec<u64>, root: Vec<u64>) -> LayerContent<u64> {
    LayerContent { popups, root, with_effects: None }
}

fn shown(r: Result<Vec<LayerElement<u64>>, LayerError>) -> Vec<(bool, u64, usize)> {
    r.unwrap()
        .iter()
        .map(|element| match element {
            LayerElement::Surface(element) => (false, *element, 0),
            LayerElement::Backdrop(element) => (true, element.id, element.commit),
        })
        .collect()
}

fn upper_scene() -> LayerScene<'static> {
    LayerScene {
        output: "DP-1",
        output_geo: OUTPUT,
        output_loc: CORNER,
        upper_layers: &[],
        index: 0,
        windows: &[],
        lower_layers: &[],
        lower_generation: 1,
    }
}

fn upper<'a>(
    content: LayerContent<u64>,
    protocol_id: u32,
    background: Option<LayerBackground>,
    reply: LayerReply<'a>,
) -> UpperLayer<'a, u64> {
    UpperLayer {
        content,
        effect: UpperEffect::Texture {
            protocol_id,
            background,
            effect_text: "blur",
            has_input: true,
            reply,
        },
    }
}

fn lower<'a>(
    content: LayerContent<u64>,
    layer_id: &'a str,
    background: Option<LayerBackground>,
    snapshot: Captured,
    reply: LayerReply<'a>,
) -> LowerLayer<'a, u64> {
    LowerLayer {
        content,
        layer_id,
        background,
        effect_text: "blur",
        scene_is_empty: false,
        snapshot,
        reply,
    }
}

#[test]
fn layer_surfaces_stand_between_their_popups_and_their_background() {
    let mut cache: NameTable<LayerBackdrop> = NameTable::new();
    let with_effects = LayerContent { popups: vec![4], root: vec![5], with_effects: Some(vec![6, 7]) };
    let layers = vec![
        upper(content(vec![1], vec![2]), 7, background(0), reply(&[91])),
        UpperLayer { content: with_effects, effect: UpperEffect::Framebuffer(Some(vec![8])) },
        upper(content(Vec::new(), vec![9]), 8, None, reply(&[])),
    ];
    let expected = vec![
        (false, 1, 0),
        (false, 2, 0),
        (true, 91, 0),
        (false, 4, 0),
        (false, 6, 0),
        (false, 7, 0),
        (false, 8, 0),
        (false, 9, 0),
    ];
    assert_eq!(shown(upper_layer_scene_elements(&upper_scene(), &mut cache, layers)), expected);

    let scene = LowerScene { output: "DP-1", output_loc: CORNER, generation: 1 };
    let layers = vec![
        lower(content(vec![1], vec![2]), "a", background(0), Captured::Taken, reply(&[91])),
        lower(content(vec![3], vec![4]), "b", None, Captured::Failed, reply(&[])),
    ];
    let expected =
        vec![(false, 1, 0), (false, 2, 0), (true, 91, 0), (false, 3, 0), (false, 4, 0)];
    assert_eq!(shown(lower_layer_scene_elements(&scene, &mut cache, layers)), expected);
}

#[test]
fn pictures_are_kept_from_one_layer_surface_to_the_next() {
    let mut cache: NameTable<LayerBackdrop> = NameTable::new();
    let damaged = LayerReply { damaged: true, ..reply(&[92]) };
    let layers = vec![
        upper(content(Vec::new(), vec![1]), 7, background(0), reply(&[91])),
        upper(content(Vec::new(), vec![2]), 7, background(0), damaged),
    ];
    assert_eq!(
        shown(upper_layer_scene_elements(&upper_scene(), &mut cache, layers)),
        vec![(false, 1, 0), (true, 91, 0), (false, 2, 0), (true, 91, 1)]
    );
    let layers = vec![upper(content(Vec::new(), vec![1]), 7, background(0), reply(&[93]))];
    assert_eq!(
        shown(upper_layer_scene_elements(&upper_scene(), &mut cache, layers)),
        vec![(false, 1, 0), (true, 91, 1)]
    );
}

#[test]
fn the_first_failure_ends_a_pass() {
    let mut cache: NameTable<LayerBackdrop> = NameTable::new();
    let failing = LayerReply { drawn: false, ..reply(&[92]) };
    let layers = vec![
        upper(content(Vec::new(), vec![1]), 7, background(0), reply(&[91])),
        upper(content(Vec::new(), vec![2]), 8, background(0), failing),
        upper(content(Vec::new(), vec![3]), 9, background(0), reply(&[93])),
    ];
    let r = upper_layer_scene_elements(&upper_scene(), &mut cache, layers);
    assert_eq!(r, Err(LayerError::Drawing));
    assert!(cache.contains("__layer_background_effect_DP-1_7_top_50x50"));
    assert!(!cache.contains("__layer_background_effect_DP-1_9_top_50x50"));
    let bare = vec![UpperLayer {
        content: content(Vec::new(), vec![1]),
        effect: UpperEffect::Framebuffer(None),
    }];
    let r = upper_layer_scene_elements(&upper_scene(), &mut cache, bare);
    assert_eq!(r, Err(LayerError::Drawing));

    let scene = LowerScene { output: "DP-1", output_loc: CORNER, generation: 1 };
    for (snapshot, error) in [
        (Captured::Missing, LayerError::MissingSnapshot),
        (Captured::Failed, LayerError::Capture),
    ] {
        let layers = vec![
            lower(content(Vec::new(), vec![1]), "a", background(0), Captured::Taken, reply(&[91])),
            lower(content(Vec::new(), vec![2]), "b", background(0), snapshot, reply(&[92])),
            lower(content(Vec::new(), vec![3]), "c", background(0), Captured::Taken, reply(&[93])),
        ];
        assert_eq!(lower_layer_scene_elements(&scene, &mut cache, layers), Err(error));
        assert!(cache.contains("__layer_background_effect_DP-1_a_0_50x50"));
        assert!(!cache.contains("__layer_background_effect_DP-1_c_2_50x50"));
    }
}
