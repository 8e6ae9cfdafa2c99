use render_pipeline::assets::{check_file_exists, FONT_FILE, IMAGE_FILE, OUTPUT_FILE, SVG_FILE};
use render_pipeline::text::{joined_text, paragraph_runs};
use std::path::PathBuf;
use render_pipeline::action::Color;
use render_pipeline::element::Element;
use render_pipeline::renderers::{
    bitmap_style, draw_path, draw_raster, draw_svg, draw_text, image_draw, path_paint,
    render_plan, BitmapStyle, FilterMode, ImageDraw, MipmapMode, Paint, Rect, RenderPlan,
    SourceConstraint,
};
use render_pipeline::path::{PathSource, EMBEDDED_PATH};

const OUTLINE: &str = "\n\
M437.02,74.981c48.352,48.352,74.98,112.64,74.98,181.02s-26.629,132.667-74.98,181.019C388.667,485.371,324.38,512,256,512\n\
s-132.667-26.629-181.02-74.98C26.629,388.668,0,324.381,0,256.001s26.627-132.668,74.98-181.02S187.62,0,256,0\n\
S388.667,26.629,437.02,74.981z M414.392,414.393c31.529-31.529,52.493-70.804,61.137-113.531\n\
c-6.737,9.918-13.182,13.598-17.172-8.603c-4.11-36.195-37.354-13.073-58.259-25.93c-22.002,14.829-71.453-28.831-63.049,20.412\n\
c12.967,22.211,70.004-29.726,41.574,17.271c-18.137,32.809-66.321,105.466-60.053,143.129c0.791,54.872-56.067,11.442-75.657-6.76\n\
c-13.178-36.46-4.491-100.188-38.949-118.043c-37.401-1.624-69.502-5.023-83.997-46.835c-8.723-29.914,9.282-74.447,41.339-81.322\n\
c46.925-29.483,63.687,34.527,107.695,35.717c13.664-14.297,50.908-18.843,53.996-34.875c-28.875-5.095,36.634-24.279-2.764-35.191\n\
c-21.735,2.556-35.739,22.537-24.185,39.479c-42.119,9.821-43.468-60.952-83.955-38.629c-1.029,35.295-66.111,11.443-22.518,4.286\n\
c14.978-6.544-24.43-25.508-3.14-22.062c10.458-0.568,45.666-12.906,36.138-21.201c19.605-12.17,36.08,29.145,55.269-0.941\n\
c13.854-23.133-5.81-27.404-23.175-15.678c-9.79-10.962,17.285-34.638,41.166-44.869c7.959-3.41,15.561-5.268,21.373-4.742\n\
c12.029,13.896,34.275,16.303,35.439-1.671C322.855,39.537,290.008,32,256,32c-48.811,0-95.235,15.512-133.654,44.195\n\
c10.325,4.73,16.186,10.619,6.239,18.148c-7.728,23.027-39.085,53.938-66.612,49.562c-14.293,24.648-23.706,51.803-27.73,80.264\n\
c23.056,7.628,28.372,22.725,23.418,27.775c-11.748,10.244-18.968,24.765-22.688,40.662c7.505,45.918,29.086,88.237,62.635,121.787\n\
C139.916,456.7,196.167,480,256,480C315.832,480,372.084,456.7,414.392,414.393z\n\
\x20   ";

#[test]
fn check_file_exists_passes_a_found_path_on() {
    let path = String::from("/work/mars.jpg");
    assert_eq!(check_file_exists(path.clone(), true), path);
    assert_eq!(check_file_exists(String::new(), true), String::new());
}

#[test]
fn check_file_exists_keeps_a_path_as_it_is() {
    let path = PathBuf::from("/work/fonts/../Adigiana_Ultra.ttf");
    assert_eq!(check_file_exists(path.clone(), true), path);
    let here = PathBuf::from(".");
    assert!(here.exists());
    assert_eq!(check_file_exists(here.clone(), here.exists()), here);
}

#[test]
fn file_names_of_the_run() {
    assert_eq!(IMAGE_FILE, "mars.jpg");
    assert_eq!(FONT_FILE, "Adigiana_Ultra.ttf");
    assert_eq!(SVG_FILE, "pinocchio.svg");
    assert_eq!(OUTPUT_FILE, "output-rust.png");
}

#[test]
fn each_element_reads_its_own_file() {
    assert_eq!(Element::Path.asset_file(), None);
    assert_eq!(Element::Raster.asset_file(), Some("mars.jpg"));
    assert_eq!(Element::Text.asset_file(), Some("Adigiana_Ultra.ttf"));
    assert_eq!(Element::Svg.asset_file(), Some("pinocchio.svg"));
}

#[test]
fn embedded_outline_is_the_fixed_geometry() {
    assert_eq!(EMBEDDED_PATH, OUTLINE);
    assert_eq!(EMBEDDED_PATH.len(), 1635);
    assert!(EMBEDDED_PATH.starts_with("\nM437.02,74.981c48.352,48.352"));
    assert!(EMBEDDED_PATH.ends_with("414.392,414.393z\n    "));
    assert_eq!(PathSource::Embedded.text(), OUTLINE);
}

#[test]
fn supplied_outline_is_handed_on_as_it_is() {
    let source = PathSource::Supplied(String::from("M0,0L10,0L10,10z"));
    assert_eq!(source.text(), "M0,0L10,0L10,10z");
    assert_eq!(PathSource::Supplied(String::new()).text(), "");
}

#[test]
fn supplied_copy_of_the_outline_equals_the_embedded_one() {
    let supplied = PathSource::Supplied(String::from(OUTLINE));
    assert_eq!(supplied.text(), PathSource::Embedded.text());
    assert_eq!(supplied.text().as_bytes(), EMBEDDED_PATH.as_bytes());
}

#[test]
fn outline_is_filled_in_anti_aliased_black() {
    let black = Color { red: 0, green: 0, blue: 0 };
    assert_eq!(path_paint(), Paint { color: black, anti_alias: true });
}

fn smooth() -> BitmapStyle {
    BitmapStyle {
        constraint: SourceConstraint::Fast,
        filter: FilterMode::Linear,
        mipmap: MipmapMode::Linear,
        paint: Paint { color: Color { red: 0, green: 0, blue: 0 }, anti_alias: true },
    }
}

#[test]
fn bitmap_is_drawn_whole_into_its_own_extent() {
    let extent = Rect { left: 0, top: 0, right: 640, bottom: 480 };
    assert_eq!(bitmap_style(), smooth());
    assert_eq!(
        image_draw(640, 480),
        ImageDraw { source: extent, destination: extent, style: smooth() }
    );
    let empty = image_draw(0, 0);
    assert_eq!(empty.source, Rect { left: 0, top: 0, right: 0, bottom: 0 });
    assert_eq!(empty.source, empty.destination);
}

#[test]
fn path_request_stands_for_the_outline_of_its_source() {
    let black = Paint { color: Color { red: 0, green: 0, blue: 0 }, anti_alias: true };
    let embedded = PathSource::Embedded;
    match render_plan(Element::Path, &embedded) {
        RenderPlan::Outline { definition, paint } => {
            assert_eq!(definition, OUTLINE);
            assert_eq!(paint, black);
        }
        other => panic!("not an outline: {:?}", other),
    }
    let supplied = PathSource::Supplied(String::from("M1,2L3,4z"));
    let mut script = Vec::new();
    match draw_path(&mut script, &supplied) {
        RenderPlan::Outline { definition, paint } => {
            assert_eq!(definition, "M1,2L3,4z");
            assert_eq!(paint, black);
        }
        other => panic!("not an outline: {:?}", other),
    }
    assert_eq!(script.len(), 5);
}

#[test]
fn raster_request_stands_for_the_image_file_drawn_smoothly() {
    let mut script = Vec::new();
    for plan in [render_plan(Element::Raster, &PathSource::Embedded), draw_raster(&mut script)] {
        match plan {
            RenderPlan::Bitmap { file, style } => {
                assert_eq!(file, "mars.jpg");
                assert_eq!(style, smooth());
            }
            other => panic!("not a bitmap: {:?}", other),
        }
    }
}

#[test]
fn text_request_stands_for_the_font_file_and_the_paragraph() {
    let mut script = Vec::new();
    for plan in [render_plan(Element::Text, &PathSource::Embedded), draw_text(&mut script)] {
        match plan {
            RenderPlan::Text { font_file, paragraph } => {
                assert_eq!(font_file, "Adigiana_Ultra.ttf");
                assert_eq!(paragraph.family, "Adigiana");
                assert_eq!(paragraph.font_size, 15);
                assert_eq!(paragraph.wrap_width, 225);
                assert_eq!((paragraph.origin_x, paragraph.origin_y), (25, 275));
                assert_eq!(paragraph.runs, paragraph_runs());
                assert_eq!(joined_text(&paragraph.runs).len(), 446);
            }
            other => panic!("not a paragraph: {:?}", other),
        }
    }
}

#[test]
fn svg_request_stands_for_the_vector_document() {
    let mut script = Vec::new();
    for plan in [render_plan(Element::Svg, &PathSource::Embedded), draw_svg(&mut script)] {
        match plan {
            RenderPlan::Document { file } => assert_eq!(file, "pinocchio.svg"),
            other => panic!("not a document: {:?}", other),
        }
    }
}
