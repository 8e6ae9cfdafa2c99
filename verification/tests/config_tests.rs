use render_pipeline::config::{RenderConfig, StageSet, CANVAS_SIZE};
use render_pipeline::element::Element;
use render_pipeline::path::PathSource;

fn selection(path: bool, raster: bool, text: bool, svg: bool, save: bool) -> StageSet {
    StageSet { path, raster, text, svg, save }
}

#[test]
fn empty_selection_enables_every_stage() {
    let none = selection(false, false, false, false, false);
    let config = RenderConfig::from_flags(none, 1, 1, PathSource::Embedded);
    assert_eq!(config.stages, selection(true, true, true, true, true));
    assert_eq!(config.stages, StageSet::all());
    assert_eq!(config.scale, 1);
    assert_eq!(config.loop_count, 1);
}

#[test]
fn any_selection_is_kept_as_given() {
    let only_save = selection(false, false, false, false, true);
    assert_eq!(RenderConfig::from_flags(only_save, 1, 1, PathSource::Embedded).stages, only_save);
    let only_text = selection(false, false, true, false, false);
    assert_eq!(RenderConfig::from_flags(only_text, 4, 9, PathSource::Embedded).stages, only_text);
    let mixed = selection(true, false, false, true, false);
    assert_eq!(mixed.resolve(), mixed);
    let all = selection(true, true, true, true, true);
    assert_eq!(all.resolve(), all);
}

#[test]
fn none_selected_sees_each_flag() {
    assert!(selection(false, false, false, false, false).none_selected());
    assert!(!selection(true, false, false, false, false).none_selected());
    assert!(!selection(false, true, false, false, false).none_selected());
    assert!(!selection(false, false, true, false, false).none_selected());
    assert!(!selection(false, false, false, true, false).none_selected());
    assert!(!selection(false, false, false, false, true).none_selected());
}

#[test]
fn includes_reads_the_flag_of_the_element() {
    let stages = selection(true, false, true, false, true);
    assert!(stages.includes(Element::Path));
    assert!(!stages.includes(Element::Raster));
    assert!(stages.includes(Element::Text));
    assert!(!stages.includes(Element::Svg));
}

#[test]
fn disable_switches_one_stage_off() {
    let all = StageSet::all();
    assert_eq!(all.disable(Element::Path), selection(false, true, true, true, true));
    assert_eq!(all.disable(Element::Raster), selection(true, false, true, true, true));
    assert_eq!(all.disable(Element::Text), selection(true, true, false, true, true));
    assert_eq!(all.disable(Element::Svg), selection(true, true, true, false, true));
    let none = selection(false, false, false, false, false);
    assert_eq!(none.disable(Element::Svg), none);
}

#[test]
fn surface_extent_is_base_size_times_scale() {
    assert_eq!(CANVAS_SIZE, 512);
    let at = |scale: u8| {
        RenderConfig::from_flags(StageSet::all(), scale, 1, PathSource::Embedded).surface_extent()
    };
    assert_eq!(at(1), 512);
    assert_eq!(at(2), 1024);
    assert_eq!(at(3), 1536);
    assert_eq!(at(255), 130560);
}

#[test]
fn surface_extent_at_scale_zero_is_zero() {
    let config = RenderConfig::from_flags(StageSet::all(), 0, 1, PathSource::Embedded);
    assert_eq!(config.surface_extent(), 0);
}

#[test]
fn configuration_keeps_the_source_of_the_outline() {
    let supplied = PathSource::Supplied(String::from("M0,0L1,1z"));
    let config = RenderConfig::from_flags(StageSet::all(), 1, 1, supplied.clone());
    assert_eq!(config.path, supplied);
    let config = RenderConfig::from_flags(StageSet::all(), 1, 1, PathSource::Embedded);
    assert_eq!(config.path, PathSource::Embedded);
}
