//! The paragraph of the text stage: six runs of one family and size that
//! differ only in colour.
//!
//! Runs are collected by a [`ParagraphBuilder`], whose style stack is
//! cumulative: a pushed colour applies to all text added after it. What
//! comes out is the plain ordered list of `(text, colour)` pairs that the
//! driver hands to the text shaper.

use crate::action::Color;
use vstd::prelude::*;
use vstd::string::*;

verus! {

/// Logical family name under which the font file is registered.
pub const FONT_FAMILY: &'static str = "Adigiana";

/// Font size of every run.
pub const FONT_SIZE: u32 = 15;

/// Maximum line width; longer lines wrap.
pub const WRAP_WIDTH: u32 = 225;

/// Horizontal offset at which the laid-out paragraph is painted.
pub const ORIGIN_X: i32 = 25;

/// Vertical offset at which the laid-out paragraph is painted.
pub const ORIGIN_Y: i32 = 275;

/// The text of the first run; the five that follow continue it.
pub const RUN_1: &'static str = "Lorem ipsum dolor sit amet, consectetur adipiscing elit, ";

/// The text of the second run.
pub const RUN_2: &'static str =
    "sed do eiusmod tempor incididunt ut labore et dolore magna aliqua. ";

/// The text of the third run.
pub const RUN_3: &'static str =
    "Ut enim ad minim veniam, quis nostrud exercitation ullamco laboris nisi ut ";

/// The text of the fourth run.
pub const RUN_4: &'static str =
    "aliquip ex ea commodo consequat. Duis aute irure dolor in reprehenderit in ";

/// The text of the fifth run.
pub const RUN_5: &'static str =
    "voluptate velit esse cillum dolore eu fugiat nulla pariatur. Excepteur sint ";

/// The text of the sixth run.
pub const RUN_6: &'static str =
    "occaecat cupidatat non proident, sunt in culpa qui officia deserunt mollit anim id est laborum.\n";

/// The whole paragraph as one piece of text.
pub const PARAGRAPH: &'static str =
    "Lorem ipsum dolor sit amet, consectetur adipiscing elit, sed do eiusmod tempor incididunt ut labore et dolore magna aliqua. Ut enim ad minim veniam, quis nostrud exercitation ullamco laboris nisi ut aliquip ex ea commodo consequat. Duis aute irure dolor in reprehenderit in voluptate velit esse cillum dolore eu fugiat nulla pariatur. Excepteur sint occaecat cupidatat non proident, sunt in culpa qui officia deserunt mollit anim id est laborum.\n";

/// A contiguous piece of text in one colour.
#[derive(Clone, Copy, Debug, PartialEq, Eq)]
pub struct StyledRun {
    pub text: &'static str,
    pub color: Color,
}

/// What a run is: its characters and its colour.
pub struct RunView {
    pub text: Seq<char>,
    pub color: Color,
}

impl Paragraph {
    /// The paragraph is the one of the text stage: one family, one size,
    /// six runs that differ in colour alone and come from the fixed steps,
    /// wrapped at a fixed width and painted at a fixed offset.
    pub open spec fn is_fixed(&self) -> bool {
        &&& self.family@ == FONT_FAMILY@
        &&& self.font_size == FONT_SIZE
        &&& self.base_color == Color::black()
        &&& step_views(self.steps@) == styled_steps()
        &&& views(self.runs@) == styled_runs()
        &&& views(self.runs@) == runs_after(self.base_color, step_views(self.steps@))
        &&& joined(views(self.runs@)) == PARAGRAPH@
        &&& self.wrap_width == WRAP_WIDTH
        &&& self.origin_x == ORIGIN_X
        &&& self.origin_y == ORIGIN_Y
    }
}

impl View for StyledRun {
    type V = RunView;

    open spec fn view(&self) -> RunView {
        RunView { text: self.text@, color: self.color }
    }
}

/// The runs of a vector, each as what it is.
pub open spec fn views(runs: Seq<StyledRun>) -> Seq<RunView> {
    runs.map_values(|run: StyledRun| run@)
}

/// The text of a list of runs: their texts one after the other, colours
/// left aside.
pub open spec fn joined(runs: Seq<RunView>) -> Seq<char>
    decreases runs.len(),
{
    if runs.len() == 0 {
        Seq::empty()
    } else {
        joined(runs.drop_last()) + runs.last().text
    }
}

/// The six runs of the paragraph.
pub open spec fn styled_runs() -> Seq<RunView> {
    seq![
        RunView { text: RUN_1@, color: Color { red: 0, green: 0, blue: 0 } },
        RunView { text: RUN_2@, color: Color { red: 255, green: 0, blue: 0 } },
        RunView { text: RUN_3@, color: Color { red: 0, green: 255, blue: 0 } },
        RunView { text: RUN_4@, color: Color { red: 0, green: 0, blue: 255 } },
        RunView { text: RUN_5@, color: Color { red: 255, green: 255, blue: 0 } },
        RunView { text: RUN_6@, color: Color { red: 0, green: 255, blue: 255 } },
    ]
}

/// One call on a paragraph builder.
#[derive(Clone, Copy, Debug, PartialEq, Eq)]
pub enum TextStep {
    /// A colour is pushed; it applies to all text added after it.
    PushStyle(Color),
    /// Text is added in the colour then in effect.
    AddText(&'static str),
}

/// What a step is: the push of a colour, or the characters added.
pub enum StepView {
    PushStyle(Color),
    AddText(Seq<char>),
}

impl View for TextStep {
    type V = StepView;

    open spec fn view(&self) -> StepView {
        match self {
            TextStep::PushStyle(color) => StepView::PushStyle(*color),
            TextStep::AddText(text) => StepView::AddText(text@),
        }
    }
}

/// The steps of a vector, each as what it is.
pub open spec fn step_views(steps: Seq<TextStep>) -> Seq<StepView> {
    steps.map_values(|step: TextStep| step@)
}

/// The colour in effect after the steps: the one pushed last, or the base
/// colour if none was pushed.
pub open spec fn style_after(base: Color, steps: Seq<StepView>) -> Color
    decreases steps.len(),
{
    if steps.len() == 0 {
        base
    } else {
        match steps.last() {
            StepView::PushStyle(color) => color,
            StepView::AddText(_) => style_after(base, steps.drop_last()),
        }
    }
}

/// The runs that the steps give: one for each text added, in the colour in
/// effect when it was added.
pub open spec fn runs_after(base: Color, steps: Seq<StepView>) -> Seq<RunView>
    decreases steps.len(),
{
    if steps.len() == 0 {
        Seq::empty()
    } else {
        let before = runs_after(base, steps.drop_last());
        match steps.last() {
            StepView::PushStyle(_) => before,
            StepView::AddText(text) => before.push(
                RunView { text, color: style_after(base, steps.drop_last()) },
            ),
        }
    }
}

/// The steps that build the paragraph: the first run is added under the
/// base colour, each later one after a push of its own colour.
pub open spec fn styled_steps() -> Seq<StepView> {
    seq![
        StepView::AddText(RUN_1@),
        StepView::PushStyle(Color { red: 255, green: 0, blue: 0 }),
        StepView::AddText(RUN_2@),
        StepView::PushStyle(Color { red: 0, green: 255, blue: 0 }),
        StepView::AddText(RUN_3@),
        StepView::PushStyle(Color { red: 0, green: 0, blue: 255 }),
        StepView::AddText(RUN_4@),
        StepView::PushStyle(Color { red: 255, green: 255, blue: 0 }),
        StepView::AddText(RUN_5@),
        StepView::PushStyle(Color { red: 0, green: 255, blue: 255 }),
        StepView::AddText(RUN_6@),
    ]
}

/// Collects styled runs under a cumulative stack of colours, and keeps the
/// steps by which they came.
pub struct ParagraphBuilder {
    base: Color,
    styles: Vec<Color>,
    runs: Vec<StyledRun>,
    steps: Vec<TextStep>,
}

impl ParagraphBuilder {
    /// The colour of text added before any style is pushed.
    pub closed spec fn base(&self) -> Color {
        self.base
    }

    /// The colours pushed so far, oldest first.
    pub closed spec fn styles(&self) -> Seq<Color> {
        self.styles@
    }

    /// The runs added so far, in the order they were added.
    pub closed spec fn runs(&self) -> Seq<RunView> {
        views(self.runs@)
    }

    /// The calls made so far, in their order.
    pub closed spec fn steps(&self) -> Seq<StepView> {
        step_views(self.steps@)
    }

    /// The colour that the next run will get: the one pushed last, or the
    /// base colour while nothing is pushed.
    pub open spec fn current_style(&self) -> Color {
        if self.styles().len() == 0 {
            self.base()
        } else {
            self.styles().last()
        }
    }

    /// The text added so far.
    pub open spec fn text(&self) -> Seq<char> {
        joined(self.runs())
    }

    /// Starts an empty paragraph whose text is `base`-coloured.
    pub fn new(base: Color) -> (builder: ParagraphBuilder)
        ensures
            builder.base() == base,
            builder.styles() == Seq::<Color>::empty(),
            builder.runs() == Seq::<RunView>::empty(),
            builder.steps() == Seq::<StepView>::empty(),
    {
        let builder = ParagraphBuilder {
            base,
            styles: Vec::new(),
            runs: Vec::new(),
            steps: Vec::new(),
        };
        assert(views(builder.runs@) =~= Seq::<RunView>::empty());
        assert(step_views(builder.steps@) =~= Seq::<StepView>::empty());
        builder
    }

    /// Pushes a colour; it applies to all text added from now on. The text
    /// added so far is untouched.
    pub fn push_style(&mut self, color: Color)
        ensures
            final(self).base() == old(self).base(),
            final(self).styles() == old(self).styles().push(color),
            final(self).runs() == old(self).runs(),
            final(self).steps() == old(self).steps().push(StepView::PushStyle(color)),
            final(self).current_style() == color,
    {
        self.styles.push(color);
        self.steps.push(TextStep::PushStyle(color));
        assert(step_views(self.steps@) =~= step_views(old(self).steps@).push(
            StepView::PushStyle(color),
        ));
    }

    /// Appends a run in the current colour.
    pub fn add_text(&mut self, text: &'static str)
        ensures
            final(self).base() == old(self).base(),
            final(self).styles() == old(self).styles(),
            final(self).runs() == old(self).runs().push(
                RunView { text: text@, color: old(self).current_style() },
            ),
            final(self).steps() == old(self).steps().push(StepView::AddText(text@)),
            final(self).text() == old(self).text() + text@,
    {
        self.steps.push(TextStep::AddText(text));
        assert(step_views(self.steps@) =~= step_views(old(self).steps@).push(
            StepView::AddText(text@),
        ));
        let color = if self.styles.len() == 0 {
            self.base
        } else {
            self.styles[self.styles.len() - 1]
        };
        let run = StyledRun { text, color };
        self.runs.push(run);
        proof {
            let before = views(old(self).runs@);
            let after = views(self.runs@);
            assert(after =~= before.push(run@));
            assert(after.drop_last() =~= before);
        }
    }

    /// Finishes the paragraph and hands out its runs.
    pub fn build(self) -> (runs: Vec<StyledRun>)
        ensures
            views(runs@) == self.runs(),
            joined(views(runs@)) == self.text(),
    {
        self.runs
    }

    /// Finishes the paragraph and hands out the steps that built it along
    /// with its runs.
    pub fn into_parts(self) -> (parts: (Vec<TextStep>, Vec<StyledRun>))
        ensures
            step_views(parts.0@) == self.steps(),
            views(parts.1@) == self.runs(),
    {
        (self.steps, self.runs)
    }
}

/// Makes on a new builder the calls that build the paragraph.
fn build_paragraph() -> (builder: ParagraphBuilder)
    ensures
        builder.base() == Color::black(),
        builder.steps() == styled_steps(),
        builder.runs() == styled_runs(),
        builder.text() == RUN_1@ + RUN_2@ + RUN_3@ + RUN_4@ + RUN_5@ + RUN_6@,
{
    let mut builder = ParagraphBuilder::new(Color::rgb(0, 0, 0));
    builder.add_text(RUN_1);
    builder.push_style(Color::rgb(255, 0, 0));
    builder.add_text(RUN_2);
    builder.push_style(Color::rgb(0, 255, 0));
    builder.add_text(RUN_3);
    builder.push_style(Color::rgb(0, 0, 255));
    builder.add_text(RUN_4);
    builder.push_style(Color::rgb(255, 255, 0));
    builder.add_text(RUN_5);
    builder.push_style(Color::rgb(0, 255, 255));
    builder.add_text(RUN_6);
    assert(builder.steps() =~= styled_steps());
    assert(builder.runs() =~= styled_runs());
    assert(builder.text() =~= RUN_1@ + RUN_2@ + RUN_3@ + RUN_4@ + RUN_5@ + RUN_6@);
    builder
}

/// Builds the six runs of the paragraph: the first in the base colour, each
/// later one after a push of its own colour.
pub fn paragraph_runs() -> (runs: Vec<StyledRun>)
    ensures
        views(runs@) == styled_runs(),
        joined(views(runs@)) == RUN_1@ + RUN_2@ + RUN_3@ + RUN_4@ + RUN_5@ + RUN_6@,
{
    let builder = build_paragraph();
    builder.build()
}

/// Everything that says how the paragraph is shaped, laid out and painted.
#[derive(Clone, Debug)]
pub struct Paragraph {
    /// The family all runs are set in.
    pub family: &'static str,
    /// The size all runs are set in.
    pub font_size: u32,
    /// The colour of text that no run colours.
    pub base_color: Color,
    /// The calls that build the paragraph, in their order.
    pub steps: Vec<TextStep>,
    /// The runs that those calls give, in reading order.
    pub runs: Vec<StyledRun>,
    /// The width at which lines wrap.
    pub wrap_width: u32,
    /// Where the laid-out paragraph is painted, under the transform in
    /// effect.
    pub origin_x: i32,
    pub origin_y: i32,
}

/// Describes the paragraph of the text stage: one family, one size, six
/// runs that differ in colour alone, wrapped at a fixed width and painted
/// at a fixed offset. Its text is the paragraph, character for character.
pub fn paragraph() -> (paragraph: Paragraph)
    ensures
        paragraph.is_fixed(),
{
    proof {
        lemma_runs_spell_paragraph();
        lemma_steps_give_runs();
    }
    let (steps, runs) = build_paragraph().into_parts();
    Paragraph {
        family: FONT_FAMILY,
        font_size: FONT_SIZE,
        base_color: Color::rgb(0, 0, 0),
        steps,
        runs,
        wrap_width: WRAP_WIDTH,
        origin_x: ORIGIN_X,
        origin_y: ORIGIN_Y,
    }
}

/// Adding text after some steps adds one run in the colour in effect;
/// pushing a colour adds none.
pub proof fn lemma_runs_after_push(base: Color, steps: Seq<StepView>, step: StepView)
    ensures
        runs_after(base, steps.push(step)) == (match step {
            StepView::PushStyle(_) => runs_after(base, steps),
            StepView::AddText(text) => runs_after(base, steps).push(
                RunView { text, color: style_after(base, steps) },
            ),
        }),
        style_after(base, steps.push(step)) == (match step {
            StepView::PushStyle(color) => color,
            StepView::AddText(_) => style_after(base, steps),
        }),
{
    assert(steps.push(step).drop_last() =~= steps);
}

/// The fixed steps give the six runs: the style stack is cumulative, so
/// each run has the colour pushed just before it, and the first the base
/// colour.
pub proof fn lemma_steps_give_runs()
    ensures
        runs_after(Color::black(), styled_steps()) == styled_runs(),
{
    let base = Color::black();
    let steps = styled_steps();
    let none = Seq::<StepView>::empty();
    assert(steps.take(0) =~= none);
    assert(runs_after(base, none) =~= Seq::<RunView>::empty());
    assert(style_after(base, none) == base);
    lemma_runs_after_push(base, steps.take(0), steps[0]);
    assert(steps.take(1) =~= steps.take(0).push(steps[0]));
    lemma_runs_after_push(base, steps.take(1), steps[1]);
    assert(steps.take(2) =~= steps.take(1).push(steps[1]));
    lemma_runs_after_push(base, steps.take(2), steps[2]);
    assert(steps.take(3) =~= steps.take(2).push(steps[2]));
    lemma_runs_after_push(base, steps.take(3), steps[3]);
    assert(steps.take(4) =~= steps.take(3).push(steps[3]));
    lemma_runs_after_push(base, steps.take(4), steps[4]);
    assert(steps.take(5) =~= steps.take(4).push(steps[4]));
    lemma_runs_after_push(base, steps.take(5), steps[5]);
    assert(steps.take(6) =~= steps.take(5).push(steps[5]));
    lemma_runs_after_push(base, steps.take(6), steps[6]);
    assert(steps.take(7) =~= steps.take(6).push(steps[6]));
    lemma_runs_after_push(base, steps.take(7), steps[7]);
    assert(steps.take(8) =~= steps.take(7).push(steps[7]));
    lemma_runs_after_push(base, steps.take(8), steps[8]);
    assert(steps.take(9) =~= steps.take(8).push(steps[8]));
    lemma_runs_after_push(base, steps.take(9), steps[9]);
    assert(steps.take(10) =~= steps.take(9).push(steps[9]));
    lemma_runs_after_push(base, steps.take(10), steps[10]);
    assert(steps =~= steps.take(10).push(steps[10]));
    assert(runs_after(base, steps) =~= styled_runs());
}

/// The text of a list of runs grows at its end by the text of each run
/// added, whatever the colour of that run.
pub proof fn lemma_joined_push(runs: Seq<RunView>, run: RunView)
    ensures
        joined(runs.push(run)) == joined(runs) + run.text,
{
    assert(runs.push(run).drop_last() =~= runs);
}

/// Two lists of runs with the same texts in the same order spell the same
/// text: colours play no part in it.
pub proof fn lemma_joined_ignores_color(first: Seq<RunView>, second: Seq<RunView>)
    requires
        first.len() == second.len(),
        forall|i: int| 0 <= i < first.len() ==> first[i].text == second[i].text,
    ensures
        joined(first) == joined(second),
    decreases first.len(),
{
    if first.len() > 0 {
        lemma_joined_ignores_color(first.drop_last(), second.drop_last());
    }
}

/// The six runs, joined in order, spell the paragraph character for
/// character.
pub proof fn lemma_runs_spell_paragraph()
    ensures
        joined(styled_runs()) == PARAGRAPH@,
        styled_runs().len() == 6,
{
    let runs = styled_runs();
    let none = Seq::<RunView>::empty();
    assert(joined(none) =~= Seq::<char>::empty());
    lemma_joined_push(none, runs[0]);
    lemma_joined_push(runs.take(1), runs[1]);
    lemma_joined_push(runs.take(2), runs[2]);
    lemma_joined_push(runs.take(3), runs[3]);
    lemma_joined_push(runs.take(4), runs[4]);
    lemma_joined_push(runs.take(5), runs[5]);
    assert(runs.take(1) =~= none.push(runs[0]));
    assert(runs.take(2) =~= runs.take(1).push(runs[1]));
    assert(runs.take(3) =~= runs.take(2).push(runs[2]));
    assert(runs.take(4) =~= runs.take(3).push(runs[3]));
    assert(runs.take(5) =~= runs.take(4).push(runs[4]));
    assert(runs =~= runs.take(5).push(runs[5]));
    assert(joined(runs) =~= RUN_1@ + RUN_2@ + RUN_3@ + RUN_4@ + RUN_5@ + RUN_6@);
    reveal_strlit("Lorem ipsum dolor sit amet, consectetur adipiscing elit, ");
    reveal_strlit("sed do eiusmod tempor incididunt ut labore et dolore magna aliqua. ");
    reveal_strlit("Ut enim ad minim veniam, quis nostrud exercitation ullamco laboris nisi ut ");
    reveal_strlit("aliquip ex ea commodo consequat. Duis aute irure dolor in reprehenderit in ");
    reveal_strlit("voluptate velit esse cillum dolore eu fugiat nulla pariatur. Excepteur sint ");
    reveal_strlit(
        "occaecat cupidatat non proident, sunt in culpa qui officia deserunt mollit anim id est laborum.\n",
    );
    reveal_strlit(
        "Lorem ipsum dolor sit amet, consectetur adipiscing elit, sed do eiusmod tempor incididunt ut labore et dolore magna aliqua. Ut enim ad minim veniam, quis nostrud exercitation ullamco laboris nisi ut aliquip ex ea commodo consequat. Duis aute irure dolor in reprehenderit in voluptate velit esse cillum dolore eu fugiat nulla pariatur. Excepteur sint occaecat cupidatat non proident, sunt in culpa qui officia deserunt mollit anim id est laborum.\n",
    );
    assert(RUN_1@ + RUN_2@ + RUN_3@ + RUN_4@ + RUN_5@ + RUN_6@ =~= PARAGRAPH@);
}

/// Joins the texts of the runs in order, whatever their colours.
pub fn joined_text(runs: &Vec<StyledRun>) -> (text: String)
    ensures
        text@ == joined(views(runs@)),
{
    let mut text = String::new();
    let mut index: usize = 0;
    while index < runs.len()
        invariant
            index <= runs.len(),
            text@ == joined(views(runs@.take(index as int))),
        decreases runs.len() - index,
    {
        let run = runs[index];
        text.append(run.text);
        proof {
            let before = views(runs@.take(index as int));
            let after = views(runs@.take(index as int + 1));
            assert(after =~= before.push(run@));
            assert(after.drop_last() =~= before);
        }
        index = index + 1;
    }
    assert(runs@.take(index as int) =~= runs@);
    text
}

} // verus!
