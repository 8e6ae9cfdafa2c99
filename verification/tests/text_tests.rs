use render_pipeline::action::Color;
use render_pipeline::text::{
    joined_text, paragraph, paragraph_runs, ParagraphBuilder, StyledRun, TextStep, FONT_FAMILY,
    FONT_SIZE, ORIGIN_X, ORIGIN_Y, PARAGRAPH, WRAP_WIDTH,
};

const LOREM: &str = "Lorem ipsum dolor sit amet, consectetur adipiscing elit, sed do eiusmod tempor incididunt ut labore et dolore magna aliqua. Ut enim ad minim veniam, quis nostrud exercitation ullamco laboris nisi ut aliquip ex ea commodo consequat. Duis aute irure dolor in reprehenderit in voluptate velit esse cillum dolore eu fugiat nulla pariatur. Excepteur sint occaecat cupidatat non proident, sunt in culpa qui officia deserunt mollit anim id est laborum.\n";

fn rgb(red: u8, green: u8, blue: u8) -> Color {
    Color { red, green, blue }
}

#[test]
fn runs_joined_spell_the_paragraph_byte_for_byte() {
    let text = joined_text(&paragraph_runs());
    assert_eq!(text, LOREM);
    assert_eq!(text.as_bytes(), LOREM.as_bytes());
    assert_eq!(PARAGRAPH, LOREM);
    assert_eq!(text.len(), 446);
}

#[test]
fn paragraph_has_six_runs_in_six_colors() {
    let runs = paragraph_runs();
    let expected = vec![
        StyledRun {
            text: "Lorem ipsum dolor sit amet, consectetur adipiscing elit, ",
            color: rgb(0, 0, 0),
        },
        StyledRun {
            text: "sed do eiusmod tempor incididunt ut labore et dolore magna aliqua. ",
            color: rgb(255, 0, 0),
        },
        StyledRun {
            text: "Ut enim ad minim veniam, quis nostrud exercitation ullamco laboris nisi ut ",
            color: rgb(0, 255, 0),
        },
        StyledRun {
            text: "aliquip ex ea commodo consequat. Duis aute irure dolor in reprehenderit in ",
            color: rgb(0, 0, 255),
        },
        StyledRun {
            text: "voluptate velit esse cillum dolore eu fugiat nulla pariatur. Excepteur sint ",
            color: rgb(255, 255, 0),
        },
        StyledRun {
            text: "occaecat cupidatat non proident, sunt in culpa qui officia deserunt mollit anim id est laborum.\n",
            color: rgb(0, 255, 255),
        },
    ];
    assert_eq!(runs, expected);
}

#[test]
fn paragraph_is_described_in_full() {
    let described = paragraph();
    assert_eq!(described.family, "Adigiana");
    assert_eq!(described.family, FONT_FAMILY);
    assert_eq!(described.font_size, 15);
    assert_eq!(FONT_SIZE, 15);
    assert_eq!(described.base_color, rgb(0, 0, 0));
    assert_eq!(described.wrap_width, 225);
    assert_eq!(WRAP_WIDTH, 225);
    assert_eq!((described.origin_x, described.origin_y), (25, 275));
    assert_eq!((ORIGIN_X, ORIGIN_Y), (25, 275));
    assert_eq!(described.runs, paragraph_runs());
    assert_eq!(joined_text(&described.runs), LOREM);
}

#[test]
fn builder_colors_text_with_the_style_pushed_last() {
    let mut builder = ParagraphBuilder::new(rgb(9, 9, 9));
    builder.add_text("a");
    builder.add_text("b");
    builder.push_style(rgb(1, 0, 0));
    builder.push_style(rgb(2, 0, 0));
    builder.add_text("c");
    builder.add_text("d");
    builder.push_style(rgb(3, 0, 0));
    builder.add_text("e");
    let runs = builder.build();
    assert_eq!(
        runs,
        vec![
            StyledRun { text: "a", color: rgb(9, 9, 9) },
            StyledRun { text: "b", color: rgb(9, 9, 9) },
            StyledRun { text: "c", color: rgb(2, 0, 0) },
            StyledRun { text: "d", color: rgb(2, 0, 0) },
            StyledRun { text: "e", color: rgb(3, 0, 0) },
        ]
    );
    assert_eq!(joined_text(&runs), "abcde");
}

#[test]
fn builder_without_text_builds_nothing() {
    let mut builder = ParagraphBuilder::new(rgb(0, 0, 0));
    builder.push_style(rgb(1, 2, 3));
    let runs = builder.build();
    assert_eq!(runs, Vec::new());
    assert_eq!(joined_text(&runs), "");
}

#[test]
fn joined_text_ignores_colors_and_keeps_order() {
    let plain = vec![
        StyledRun { text: "one ", color: rgb(0, 0, 0) },
        StyledRun { text: "two ", color: rgb(0, 0, 0) },
        StyledRun { text: "three", color: rgb(0, 0, 0) },
    ];
    let colored = vec![
        StyledRun { text: "one ", color: rgb(255, 0, 0) },
        StyledRun { text: "two ", color: rgb(0, 255, 0) },
        StyledRun { text: "three", color: rgb(0, 0, 255) },
    ];
    assert_eq!(joined_text(&plain), "one two three");
    assert_eq!(joined_text(&colored), "one two three");
    let swapped = vec![colored[1], colored[0], colored[2]];
    assert_eq!(joined_text(&swapped), "two one three");
}

#[test]
fn color_from_its_parts() {
    assert_eq!(Color::rgb(1, 2, 3), rgb(1, 2, 3));
    assert_eq!(Color::rgb(255, 255, 255), Color { red: 255, green: 255, blue: 255 });
}

#[test]
fn paragraph_is_built_by_one_add_then_five_pushes_each_with_its_add() {
    let described = paragraph();
    let runs = paragraph_runs();
    let mut expected = vec![TextStep::AddText(runs[0].text)];
    for run in &runs[1..] {
        expected.push(TextStep::PushStyle(run.color));
        expected.push(TextStep::AddText(run.text));
    }
    assert_eq!(described.steps, expected);
    assert_eq!(described.steps.len(), 11);
    assert_eq!(described.steps[1], TextStep::PushStyle(rgb(255, 0, 0)));
    assert_eq!(described.base_color, runs[0].color);
}

#[test]
fn builder_keeps_its_steps_in_order() {
    let mut builder = ParagraphBuilder::new(rgb(9, 9, 9));
    builder.push_style(rgb(1, 0, 0));
    builder.add_text("a");
    builder.add_text("b");
    builder.push_style(rgb(2, 0, 0));
    let (steps, runs) = builder.into_parts();
    assert_eq!(
        steps,
        vec![
            TextStep::PushStyle(rgb(1, 0, 0)),
            TextStep::AddText("a"),
            TextStep::AddText("b"),
            TextStep::PushStyle(rgb(2, 0, 0)),
        ]
    );
    assert_eq!(
        runs,
        vec![
            StyledRun { text: "a", color: rgb(1, 0, 0) },
            StyledRun { text: "b", color: rgb(1, 0, 0) },
        ]
    );
}
