use render_pipeline::action::{Action, Color};
use render_pipeline::composer::{
    begin_frame, compose_frame, draw_stages, require_assets, run_script, save_to_png,
};
use render_pipeline::config::{RenderConfig, StageSet};
use render_pipeline::element::Element;
use render_pipeline::path::PathSource;
use render_pipeline::renderers::{draw_element, draw_path, draw_raster, draw_svg, draw_text};
use render_pipeline::scope::{enter, exit};

const WHITE: Color = Color { red: 255, green: 255, blue: 255 };

fn full_frame(scale: u8) -> Vec<Action> {
    let extent = 512 * scale as i32;
    vec![
        Action::RequireAsset(Element::Raster),
        Action::RequireAsset(Element::Text),
        Action::RequireAsset(Element::Svg),
        Action::Allocate { width: extent, height: extent },
        Action::Clear(WHITE),
        Action::Scale { numer: scale as u32, denom: 1 },
        Action::Save,
        Action::Translate { dx: 12, dy: 12 },
        Action::Scale { numer: 45, denom: 100 },
        Action::Render(Element::Path),
        Action::Restore,
        Action::Save,
        Action::Translate { dx: 250, dy: 0 },
        Action::Scale { numer: 5, denom: 100 },
        Action::Render(Element::Raster),
        Action::Restore,
        Action::Save,
        Action::Render(Element::Text),
        Action::Restore,
        Action::Save,
        Action::Translate { dx: 350, dy: 275 },
        Action::Scale { numer: 22, denom: 100 },
        Action::Render(Element::Svg),
        Action::Restore,
        Action::Encode,
        Action::WriteOutput,
    ]
}

#[test]
fn scope_records_a_save_and_a_restore() {
    let mut script = vec![Action::Encode];
    enter(&mut script);
    assert_eq!(script, vec![Action::Encode, Action::Save]);
    exit(&mut script);
    assert_eq!(script, vec![Action::Encode, Action::Save, Action::Restore]);
}

#[test]
fn path_stage_is_placed_and_scoped() {
    let mut script = Vec::new();
    draw_path(&mut script, &PathSource::Embedded);
    assert_eq!(
        script,
        vec![
            Action::Save,
            Action::Translate { dx: 12, dy: 12 },
            Action::Scale { numer: 45, denom: 100 },
            Action::Render(Element::Path),
            Action::Restore,
        ]
    );
}

#[test]
fn raster_stage_is_placed_and_scoped() {
    let mut script = Vec::new();
    draw_raster(&mut script);
    assert_eq!(
        script,
        vec![
            Action::Save,
            Action::Translate { dx: 250, dy: 0 },
            Action::Scale { numer: 5, denom: 100 },
            Action::Render(Element::Raster),
            Action::Restore,
        ]
    );
}

#[test]
fn text_stage_is_scoped_without_placement() {
    let mut script = Vec::new();
    draw_text(&mut script);
    assert_eq!(script, vec![Action::Save, Action::Render(Element::Text), Action::Restore]);
}

#[test]
fn svg_stage_is_placed_and_scoped() {
    let mut script = Vec::new();
    draw_svg(&mut script);
    assert_eq!(
        script,
        vec![
            Action::Save,
            Action::Translate { dx: 350, dy: 275 },
            Action::Scale { numer: 22, denom: 100 },
            Action::Render(Element::Svg),
            Action::Restore,
        ]
    );
}

#[test]
fn draw_element_appends_to_what_is_there() {
    for element in [Element::Path, Element::Raster, Element::Text, Element::Svg] {
        let mut by_element = vec![Action::Clear(WHITE)];
        draw_element(&mut by_element, element, &PathSource::Embedded);
        let mut by_name = vec![Action::Clear(WHITE)];
        match element {
            Element::Path => drop(draw_path(&mut by_name, &PathSource::Embedded)),
            Element::Raster => drop(draw_raster(&mut by_name)),
            Element::Text => drop(draw_text(&mut by_name)),
            Element::Svg => drop(draw_svg(&mut by_name)),
        }
        assert_eq!(by_element, by_name);
        assert_eq!(by_element[0], Action::Clear(WHITE));
        assert_eq!(by_element[1], Action::Save);
        assert_eq!(by_element[by_element.len() - 2], Action::Render(element));
        assert_eq!(by_element[by_element.len() - 1], Action::Restore);
    }
}

#[test]
fn every_stage_keeps_its_saves_and_restores_balanced() {
    let script = run_script(&RenderConfig::from_flags(StageSet::all(), 1, 1, PathSource::Embedded));
    let mut depth: i32 = 0;
    for action in &script {
        match action {
            Action::Save => depth += 1,
            Action::Restore => {
                depth -= 1;
                assert!(depth >= 0);
            }
            Action::Render(_) | Action::Translate { .. } => assert_eq!(depth, 1),
            Action::Scale { denom, .. } => assert_eq!(depth, if *denom == 1 { 0 } else { 1 }),
            _ => assert_eq!(depth, 0),
        }
    }
    assert_eq!(depth, 0);
}

#[test]
fn checks_cover_the_enabled_elements_that_read_a_file() {
    let mut script = Vec::new();
    require_assets(&mut script, &StageSet::all());
    assert_eq!(
        script,
        vec![
            Action::RequireAsset(Element::Raster),
            Action::RequireAsset(Element::Text),
            Action::RequireAsset(Element::Svg),
        ]
    );
    let mut script = Vec::new();
    let stages = StageSet { path: true, raster: false, text: true, svg: false, save: true };
    require_assets(&mut script, &stages);
    assert_eq!(script, vec![Action::RequireAsset(Element::Text)]);
    let mut script = Vec::new();
    let stages = StageSet { path: true, raster: false, text: false, svg: false, save: false };
    require_assets(&mut script, &stages);
    assert_eq!(script, Vec::new());
}

#[test]
fn frame_starts_on_a_white_surface_of_the_scaled_size() {
    let mut script = Vec::new();
    let config = RenderConfig::from_flags(StageSet::all(), 2, 1, PathSource::Embedded);
    begin_frame(&mut script, &config);
    assert_eq!(
        script,
        vec![
            Action::Allocate { width: 1024, height: 1024 },
            Action::Clear(WHITE),
            Action::Scale { numer: 2, denom: 1 },
        ]
    );
}

#[test]
fn encoder_part_encodes_then_writes() {
    let mut script = vec![Action::Restore];
    save_to_png(&mut script);
    assert_eq!(script, vec![Action::Restore, Action::Encode, Action::WriteOutput]);
}

#[test]
fn all_stages_give_the_full_frame() {
    let config = RenderConfig::from_flags(StageSet::all(), 1, 1, PathSource::Embedded);
    assert_eq!(run_script(&config), full_frame(1));
    let mut script = Vec::new();
    compose_frame(&mut script, &config);
    assert_eq!(script, full_frame(1));
}

#[test]
fn no_flags_give_the_full_frame() {
    let none = StageSet { path: false, raster: false, text: false, svg: false, save: false };
    let config = RenderConfig::from_flags(none, 1, 1, PathSource::Embedded);
    assert_eq!(run_script(&config), full_frame(1));
}

#[test]
fn allocation_asks_for_base_size_times_scale() {
    for scale in [1u8, 2, 3, 7, 255] {
        let config = RenderConfig::from_flags(StageSet::all(), scale, 1, PathSource::Embedded);
        let script = run_script(&config);
        let extent = 512 * scale as i32;
        let allocations: Vec<&Action> =
            script.iter().filter(|action| matches!(action, Action::Allocate { .. })).collect();
        assert_eq!(allocations, vec![&Action::Allocate { width: extent, height: extent }]);
        assert_eq!(script, full_frame(scale));
    }
}

#[test]
fn save_only_clears_and_saves() {
    let only = StageSet { path: false, raster: false, text: false, svg: false, save: true };
    let script = run_script(&RenderConfig::from_flags(only, 3, 1, PathSource::Embedded));
    assert_eq!(
        script,
        vec![
            Action::Allocate { width: 1536, height: 1536 },
            Action::Clear(WHITE),
            Action::Scale { numer: 3, denom: 1 },
            Action::Encode,
            Action::WriteOutput,
        ]
    );
}

#[test]
fn enabled_subset_keeps_the_fixed_order() {
    let stages = StageSet { path: false, raster: true, text: false, svg: true, save: false };
    let script = run_script(&RenderConfig::from_flags(stages, 1, 1, PathSource::Embedded));
    assert_eq!(
        script,
        vec![
            Action::RequireAsset(Element::Raster),
            Action::RequireAsset(Element::Svg),
            Action::Allocate { width: 512, height: 512 },
            Action::Clear(WHITE),
            Action::Scale { numer: 1, denom: 1 },
            Action::Save,
            Action::Translate { dx: 250, dy: 0 },
            Action::Scale { numer: 5, denom: 100 },
            Action::Render(Element::Raster),
            Action::Restore,
            Action::Save,
            Action::Translate { dx: 350, dy: 275 },
            Action::Scale { numer: 22, denom: 100 },
            Action::Render(Element::Svg),
            Action::Restore,
        ]
    );
}

#[test]
fn draw_stages_follows_the_flags() {
    let mut script = Vec::new();
    let stages = StageSet { path: true, raster: false, text: true, svg: false, save: true };
    draw_stages(&mut script, &RenderConfig::from_flags(stages, 1, 1, PathSource::Embedded));
    let mut expected = Vec::new();
    draw_path(&mut expected, &PathSource::Embedded);
    draw_text(&mut expected);
    assert_eq!(script, expected);
}

#[test]
fn run_repeats_the_frame_loop_count_times() {
    let config = RenderConfig::from_flags(StageSet::all(), 2, 3, PathSource::Embedded);
    let script = run_script(&config);
    let frame = full_frame(2);
    assert_eq!(script.len(), 3 * frame.len());
    for (index, action) in script.iter().enumerate() {
        assert_eq!(*action, frame[index % frame.len()]);
    }
    let writes = script.iter().filter(|action| **action == Action::WriteOutput).count();
    assert_eq!(writes, 3);
}

#[test]
fn run_of_no_loops_is_empty() {
    let config = RenderConfig::from_flags(StageSet::all(), 1, 0, PathSource::Embedded);
    assert_eq!(run_script(&config), Vec::new());
}

#[test]
fn disabled_stage_removes_only_its_own_actions() {
    let all = run_script(&RenderConfig::from_flags(StageSet::all(), 1, 1, PathSource::Embedded));
    let without =
        run_script(&RenderConfig::from_flags(
            StageSet::all().disable(Element::Raster),
            1,
            1,
            PathSource::Embedded,
        ));
    let mut expected = all.clone();
    // The raster block, then the check of the raster file.
    expected.drain(11..16);
    expected.remove(0);
    assert_eq!(without, expected);
}

#[test]
fn script_does_not_depend_on_the_source_of_the_outline() {
    let supplied = PathSource::Supplied(String::from("M0,0L1,1z"));
    let with_supplied = RenderConfig::from_flags(StageSet::all(), 2, 2, supplied);
    let with_embedded = RenderConfig::from_flags(StageSet::all(), 2, 2, PathSource::Embedded);
    assert_eq!(run_script(&with_supplied), run_script(&with_embedded));
}
