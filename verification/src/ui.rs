//! The benchmark's screen: its state, the texts it shows, and the tree of
//! elements that a host renders.
//!
//! Nothing here talks to a host. The state is a plain value that the caller
//! guards; every function maps a state or an event to the next state and to
//! what is to be rendered.

use vstd::prelude::*;
use vstd::string::StringExecFns;
use vstd::string::StrSliceExecFns;
use crate::params::{
    BENCH_N1,
    BENCH_N2,
    BENCH_REPEATS,
    BENCH_SEED,
    BENCH_WARMUP,
    EFFECTIVE_N1,
    EFFECTIVE_N2,
    MAX_CHUNKS,
    TOTAL_STEPS,
};
use crate::progress::{BenchPhase, BenchStepStatus, ProgressUpdate};
use crate::report::{millis_text, push_millis, BenchCaseResult, BenchmarkResult};
use crate::text::{dec_text, div_round, fixed1_text, hex16_text, push_dec, push_fixed1, push_hex16};

verus! {

/// The name of the event that starts the benchmark.
pub const START_BENCH_EVENT: &'static str = "benchmark_start";

/// What a host reports of a user's action.
#[derive(Clone, Copy, Debug, PartialEq, Eq, Structural)]
pub enum Event {
    /// An element was clicked.
    Click,
    /// Anything else.
    Other,
}

/// The state of the screen.
#[derive(Debug, PartialEq, Eq)]
pub struct UiState {
    /// The host's element that the screen is rendered into, once known.
    pub root_element_id: Option<String>,
    /// Whether the benchmark is running.
    pub running: bool,
    /// The repetitions completed.
    pub progress_done: usize,
    /// The repetitions of the whole benchmark.
    pub progress_total: usize,
    /// The status line.
    pub status: String,
    /// The chunks of the current repetition that have run.
    pub chunk_index: usize,
    /// The chunks of a repetition.
    pub chunk_total: usize,
    /// The lines of the last result.
    pub result_lines: Vec<String>,
    /// The report of the last result.
    pub result_json: Option<String>,
}

/// What the screen shows: the state without the host's element.
#[derive(Debug, PartialEq, Eq)]
pub struct UiSnapshot {
    /// Whether the benchmark is running.
    pub running: bool,
    /// The repetitions completed.
    pub progress_done: usize,
    /// The repetitions of the whole benchmark.
    pub progress_total: usize,
    /// The status line.
    pub status: String,
    /// The chunks of the current repetition that have run.
    pub chunk_index: usize,
    /// The chunks of a repetition.
    pub chunk_total: usize,
    /// The lines of the last result.
    pub result_lines: Vec<String>,
    /// The report of the last result.
    pub result_json: Option<String>,
}

/// A snapshot as plain mathematical values.
pub ghost struct SnapshotView {
    pub running: bool,
    pub progress_done: usize,
    pub progress_total: usize,
    pub status: Seq<char>,
    pub chunk_index: usize,
    pub chunk_total: usize,
    pub result_lines: Seq<Seq<char>>,
    pub result_json: Option<Seq<char>>,
}

/// A state as plain mathematical values.
pub ghost struct StateView {
    pub root_element_id: Option<Seq<char>>,
    pub shown: SnapshotView,
}

/// The text of an optional string.
pub open spec fn text_of(s: Option<String>) -> Option<Seq<char>> {
    match s {
        Some(text) => Some(text@),
        None => None,
    }
}

/// The texts of a list of strings.
pub open spec fn texts_of(lines: Seq<String>) -> Seq<Seq<char>> {
    Seq::new(lines.len(), |i: int| lines[i]@)
}

impl View for UiSnapshot {
    type V = SnapshotView;

    open spec fn view(&self) -> SnapshotView {
        SnapshotView {
            running: self.running,
            progress_done: self.progress_done,
            progress_total: self.progress_total,
            status: self.status@,
            chunk_index: self.chunk_index,
            chunk_total: self.chunk_total,
            result_lines: texts_of(self.result_lines@),
            result_json: text_of(self.result_json),
        }
    }
}

impl View for UiState {
    type V = StateView;

    open spec fn view(&self) -> StateView {
        StateView {
            root_element_id: text_of(self.root_element_id),
            shown: SnapshotView {
                running: self.running,
                progress_done: self.progress_done,
                progress_total: self.progress_total,
                status: self.status@,
                chunk_index: self.chunk_index,
                chunk_total: self.chunk_total,
                result_lines: texts_of(self.result_lines@),
                result_json: text_of(self.result_json),
            },
        }
    }
}

/// Whether two strings hold the same text.
pub fn same_text(a: &str, b: &str) -> (same: bool)
    ensures
        same == (a@ == b@),
{
    let n = a.unicode_len();
    if b.unicode_len() != n {
        return false;
    }
    let mut i: usize = 0;
    while i < n
        invariant
            n == a@.len(),
            n == b@.len(),
            i <= n,
            forall|k: int| 0 <= k < i ==> a@[k] == b@[k],
        decreases n - i,
    {
        if a.get_char(i) != b.get_char(i) {
            return false;
        }
        i = i + 1;
    }
    assert(a@ =~= b@);
    true
}

/// A copy of an optional string.
fn copy_text(s: &Option<String>) -> (out: Option<String>)
    ensures
        text_of(out) == text_of(*s),
{
    match s {
        Some(text) => Some(text.clone()),
        None => None,
    }
}

/// A copy of a list of strings.
fn copy_lines(lines: &Vec<String>) -> (out: Vec<String>)
    ensures
        texts_of(out@) == texts_of(lines@),
{
    let mut out: Vec<String> = Vec::new();
    let mut i: usize = 0;
    while i < lines.len()
        invariant
            i <= lines.len(),
            out.len() == i,
            forall|k: int| 0 <= k < i ==> out@[k]@ == lines@[k]@,
        decreases lines.len() - i,
    {
        out.push(lines[i].clone());
        i = i + 1;
    }
    out
}

/// The status line before the first run.
pub open spec fn idle_status() -> Seq<char> {
    "等待开始"@
}

/// The state of a screen on which nothing has happened yet.
pub open spec fn initial_state() -> StateView {
    StateView {
        root_element_id: None,
        shown: SnapshotView {
            running: false,
            progress_done: 0,
            progress_total: TOTAL_STEPS,
            status: idle_status(),
            chunk_index: 0,
            chunk_total: 0,
            result_lines: Seq::empty(),
            result_json: None,
        },
    }
}

/// The state of a screen on which nothing has happened yet.
pub fn ui_state() -> (state: UiState)
    ensures
        state@ == initial_state(),
{
    let state = UiState {
        root_element_id: None,
        running: false,
        progress_done: 0,
        progress_total: TOTAL_STEPS,
        status: String::from_str("等待开始"),
        chunk_index: 0,
        chunk_total: 0,
        result_lines: Vec::new(),
        result_json: None,
    };
    assert(state@.shown.result_lines =~= Seq::empty());
    state
}

/// What the screen shows in `state`.
pub fn snapshot_from(state: &UiState) -> (snapshot: UiSnapshot)
    ensures
        snapshot@ == state@.shown,
{
    UiSnapshot {
        running: state.running,
        progress_done: state.progress_done,
        progress_total: state.progress_total,
        status: state.status.clone(),
        chunk_index: state.chunk_index,
        chunk_total: state.chunk_total,
        result_lines: copy_lines(&state.result_lines),
        result_json: copy_text(&state.result_json),
    }
}

/// Whether an event asks for the benchmark to be started: a click on the
/// element that carries [`START_BENCH_EVENT`].
pub fn ui_event_processor(evtype: Event, event: &str) -> (start: bool)
    ensures
        start == (evtype == Event::Click && event@ == START_BENCH_EVENT@),
{
    match evtype {
        Event::Click => same_text(event, START_BENCH_EVENT),
        Event::Other => false,
    }
}

/// The word for a phase.
pub open spec fn phase_text(phase: BenchPhase) -> Seq<char> {
    match phase {
        BenchPhase::Warmup => "预热"@,
        BenchPhase::Measure => "测试"@,
    }
}

/// The word for what an event reports.
pub open spec fn step_status_text(status: BenchStepStatus) -> Seq<char> {
    match status {
        BenchStepStatus::Started => "开始"@,
        BenchStepStatus::Finished => "完成"@,
        BenchStepStatus::Chunk => "进行中"@,
    }
}

/// The status line for a progress event: the workload's tag, the phase, the
/// repetition's number of how many, and what the event reports.
pub open spec fn progress_status_text(update: ProgressUpdate) -> Seq<char> {
    update.bench_id@ + " "@ + phase_text(update.phase) + " "@ + dec_text(update.index as nat)
        + "/"@ + dec_text(update.total as nat) + " "@ + step_status_text(update.status)
}

/// The status line for a progress event.
pub fn format_progress_status(update: &ProgressUpdate) -> (line: String)
    ensures
        line@ == progress_status_text(*update),
{
    let phase = match update.phase {
        BenchPhase::Warmup => "预热",
        BenchPhase::Measure => "测试",
    };
    let status = match update.status {
        BenchStepStatus::Started => "开始",
        BenchStepStatus::Finished => "完成",
        BenchStepStatus::Chunk => "进行中",
    };
    let mut line = String::from_str(update.bench_id);
    line.append(" ");
    line.append(phase);
    line.append(" ");
    push_dec(&mut line, update.index as u128);
    line.append("/");
    push_dec(&mut line, update.total as u128);
    line.append(" ");
    line.append(status);
    line
}

/// The note on the parameters that were run, where they differ from the
/// nominal ones.
pub open spec fn effective_note_text() -> Option<Seq<char>> {
    if EFFECTIVE_N1 != BENCH_N1 || EFFECTIVE_N2 != BENCH_N2 {
        Some(
            " (effective n1="@ + dec_text(EFFECTIVE_N1 as nat) + " n2="@ + dec_text(
                EFFECTIVE_N2 as nat,
            ) + " maxChunks="@ + dec_text(MAX_CHUNKS as nat) + ")"@,
        )
    } else {
        None
    }
}

/// The note on the parameters that were run, where they differ from the
/// nominal ones.
pub fn effective_note() -> (note: Option<String>)
    ensures
        text_of(note) == effective_note_text(),
{
    if EFFECTIVE_N1 != BENCH_N1 || EFFECTIVE_N2 != BENCH_N2 {
        let mut note = String::from_str(" (effective n1=");
        push_dec(&mut note, EFFECTIVE_N1 as u128);
        note.append(" n2=");
        push_dec(&mut note, EFFECTIVE_N2 as u128);
        note.append(" maxChunks=");
        push_dec(&mut note, MAX_CHUNKS as u128);
        note.append(")");
        Some(note)
    } else {
        None
    }
}

/// The parameters as a command line would give them, with the note on the
/// parameters that were run.
pub open spec fn parameters_text() -> Seq<char> {
    "--seed "@ + dec_text(BENCH_SEED as nat) + " --n1 "@ + dec_text(BENCH_N1 as nat) + " --n2 "@
        + dec_text(BENCH_N2 as nat) + " --warmup "@ + dec_text(BENCH_WARMUP as nat)
        + " --repeats "@ + dec_text(BENCH_REPEATS as nat) + match effective_note_text() {
        Some(note) => note,
        None => Seq::empty(),
    }
}

/// Appends the parameters.
fn push_parameters(out: &mut String)
    ensures
        final(out)@ == old(out)@ + parameters_text(),
{
    out.append("--seed ");
    push_dec(out, BENCH_SEED as u128);
    out.append(" --n1 ");
    push_dec(out, BENCH_N1 as u128);
    out.append(" --n2 ");
    push_dec(out, BENCH_N2 as u128);
    out.append(" --warmup ");
    push_dec(out, BENCH_WARMUP as u128);
    out.append(" --repeats ");
    push_dec(out, BENCH_REPEATS as u128);
    match effective_note() {
        Some(note) => {
            out.append(note.as_str());
        },
        None => {},
    }
}

/// The line that shows a workload's digest.
pub open spec fn digest_line_text(case: BenchCaseResult) -> Seq<char> {
    case.id@ + " digest: "@ + hex16_text(case.digest)
}

/// The line that shows a workload's time statistics in milliseconds.
pub open spec fn times_line_text(case: BenchCaseResult) -> Seq<char> {
    case.id@ + " ms: min "@ + millis_text(case.stats.min) + ", p50 "@ + millis_text(
        case.stats.p50,
    ) + ", p95 "@ + millis_text(case.stats.p95) + ", max "@ + millis_text(case.stats.max)
}

/// The lines that show a result: the parameters, each workload's digest
/// and times, and the final digest.
pub open spec fn result_lines_text(result: BenchmarkResult) -> Seq<Seq<char>> {
    seq![
        "参数: "@ + parameters_text(),
        digest_line_text(result.t1),
        times_line_text(result.t1),
        digest_line_text(result.t2),
        times_line_text(result.t2),
        "final_digest: "@ + hex16_text(result.final_digest),
    ]
}

/// The line that shows a workload's digest.
fn digest_line(case: &BenchCaseResult) -> (line: String)
    ensures
        line@ == digest_line_text(*case),
{
    let mut line = String::from_str(case.id);
    line.append(" digest: ");
    push_hex16(&mut line, case.digest);
    line
}

/// The line that shows a workload's time statistics.
fn times_line(case: &BenchCaseResult) -> (line: String)
    ensures
        line@ == times_line_text(*case),
{
    let mut line = String::from_str(case.id);
    line.append(" ms: min ");
    push_millis(&mut line, case.stats.min);
    line.append(", p50 ");
    push_millis(&mut line, case.stats.p50);
    line.append(", p95 ");
    push_millis(&mut line, case.stats.p95);
    line.append(", max ");
    push_millis(&mut line, case.stats.max);
    line
}

/// The lines that show a result.
pub fn build_result_lines(result: &BenchmarkResult) -> (lines: Vec<String>)
    ensures
        texts_of(lines@) == result_lines_text(*result),
{
    let mut lines: Vec<String> = Vec::new();
    let mut first = String::from_str("参数: ");
    push_parameters(&mut first);
    lines.push(first);
    lines.push(digest_line(&result.t1));
    lines.push(times_line(&result.t1));
    lines.push(digest_line(&result.t2));
    lines.push(times_line(&result.t2));
    let mut last = String::from_str("final_digest: ");
    push_hex16(&mut last, result.final_digest);
    lines.push(last);
    lines
}

/// The status line while a run is being prepared.
pub open spec fn preparing_status() -> Seq<char> {
    "准备测试..."@
}

/// The status line after a run.
pub open spec fn finished_status() -> Seq<char> {
    "测试完成"@
}

/// The state in which a run begins: nothing done, no result, and whatever
/// element the screen is rendered into.
pub open spec fn state_at_start(root_element_id: Option<Seq<char>>) -> StateView {
    StateView {
        root_element_id,
        shown: SnapshotView {
            running: true,
            progress_done: 0,
            progress_total: TOTAL_STEPS,
            status: preparing_status(),
            chunk_index: 0,
            chunk_total: 0,
            result_lines: Seq::empty(),
            result_json: None,
        },
    }
}

/// Begins a run unless one is under way. Returns whether it did; if not,
/// the state is as it was.
pub fn start_run(state: &mut UiState) -> (started: bool)
    ensures
        started == !old(state)@.shown.running,
        started ==> final(state)@ == state_at_start(old(state)@.root_element_id),
        !started ==> final(state)@ == old(state)@,
{
    if state.running {
        return false;
    }
    state.running = true;
    state.progress_done = 0;
    state.progress_total = TOTAL_STEPS;
    state.status = String::from_str("准备测试...");
    state.chunk_index = 0;
    state.chunk_total = 0;
    state.result_lines = Vec::new();
    state.result_json = None;
    assert(state@.shown.result_lines =~= Seq::empty());
    true
}

/// What happens to the screen during a run.
#[derive(Debug)]
pub enum StateUpdate {
    /// A progress event has arrived.
    Progress(ProgressUpdate),
    /// The run has ended with a result.
    Finished(BenchmarkResult),
}

/// The state after an update.
pub open spec fn state_after(state: StateView, update: StateUpdate) -> StateView {
    match update {
        StateUpdate::Progress(event) => StateView {
            root_element_id: state.root_element_id,
            shown: SnapshotView {
                status: progress_status_text(event),
                progress_done: event.completed_steps,
                progress_total: event.total_steps,
                chunk_index: event.chunk_index,
                chunk_total: event.chunk_total,
                ..state.shown
            },
        },
        StateUpdate::Finished(result) => StateView {
            root_element_id: state.root_element_id,
            shown: SnapshotView {
                running: false,
                progress_done: state.shown.progress_total,
                status: finished_status(),
                result_lines: result_lines_text(result),
                result_json: Some(result.json@),
                ..state.shown
            },
        },
    }
}

/// The kind of an element.
#[derive(Clone, Copy, Debug, PartialEq, Eq, Structural)]
pub enum ElementType {
    /// A paragraph of text.
    P,
    /// A button.
    Button,
    /// A container.
    Div,
}

/// The direction in which a flexible container lays out its children.
#[derive(Clone, Copy, Debug, PartialEq, Eq, Structural)]
pub enum FlexDirection {
    /// Side by side.
    Row,
    /// One below the other.
    Column,
}

/// One attribute of an element.
#[derive(Clone, Copy, Debug, PartialEq, Eq)]
pub enum Attr {
    /// The size of the text.
    Size(u32),
    /// The space above.
    MarginTop(u32),
    /// The space below.
    MarginBottom(u32),
    /// The space inside.
    Padding(u32),
    /// The radius of the corners.
    Radius(u32),
    /// The colour of the text.
    TextColor(&'static str),
    /// The colour of the background.
    Bg(&'static str),
    /// The element does not react.
    Disabled,
    /// A click on the element reports the named event.
    OnClick(&'static str),
    /// The element lays out its children flexibly.
    Flex,
    /// The direction of that layout.
    FlexDirection(FlexDirection),
    /// Children are aligned at the start.
    AlignStart,
    /// Children are packed at the start.
    JustifyStart,
    /// The element takes the full width.
    WidthFull,
}

/// An element of the screen.
#[derive(Debug, PartialEq, Eq)]
pub struct Element {
    /// The element's kind.
    pub kind: ElementType,
    /// The element's text, if it has any.
    pub content: Option<String>,
    /// The element's attributes, in the order in which they were set.
    pub attrs: Vec<Attr>,
    /// The elements inside it, in order.
    pub children: Vec<Element>,
}

/// An element as a mathematical tree.
pub ghost struct ElementModel {
    pub kind: ElementType,
    pub content: Option<Seq<char>>,
    pub attrs: Seq<Attr>,
    pub children: Seq<ElementModel>,
}

/// An element without children.
pub open spec fn leaf(kind: ElementType, content: Seq<char>, attrs: Seq<Attr>) -> ElementModel {
    ElementModel { kind, content: Some(content), attrs, children: Seq::empty() }
}

/// A container.
pub open spec fn container(attrs: Seq<Attr>, children: Seq<ElementModel>) -> ElementModel {
    ElementModel { kind: ElementType::Div, content: None, attrs, children }
}

impl Element {
    /// The element as a mathematical tree.
    pub open spec fn model(&self) -> ElementModel
        decreases self,
    {
        ElementModel {
            kind: self.kind,
            content: text_of(self.content),
            attrs: self.attrs@,
            children: Seq::new(
                self.children@.len(),
                |i: int|
                    if 0 <= i < self.children@.len() {
                        self.children@[i].model()
                    } else {
                        arbitrary()
                    },
            ),
        }
    }

    /// An element of a kind, with or without text, and nothing else.
    pub fn new(kind: ElementType, content: Option<&str>) -> (element: Element)
        ensures
            element.model() == (ElementModel {
                kind,
                content: match content {
                    Some(text) => Some(text@),
                    None => None,
                },
                attrs: Seq::empty(),
                children: Seq::empty(),
            }),
    {
        let content = match content {
            Some(text) => Some(String::from_str(text)),
            None => None,
        };
        let element = Element { kind, content, attrs: Vec::new(), children: Vec::new() };
        assert(element.model().children =~= Seq::empty());
        element
    }

    /// The element with one more attribute.
    pub fn with(self, attr: Attr) -> (element: Element)
        ensures
            element.model() == (ElementModel {
                attrs: self.model().attrs.push(attr),
                ..self.model()
            }),
    {
        let mut element = self;
        element.attrs.push(attr);
        element
    }

    /// The element with one more child.
    pub fn child(self, child: Element) -> (element: Element)
        ensures
            element.model() == (ElementModel {
                children: self.model().children.push(child.model()),
                ..self.model()
            }),
    {
        let mut element = self;
        element.children.push(child);
        assert(element.model().children =~= self.model().children.push(child.model()));
        element
    }
}

/// The progress line: the repetitions done of how many, and the same as a
/// percentage with one decimal place, halves rounded up.
pub open spec fn progress_text(done: usize, total: usize) -> Seq<char> {
    "进度: "@ + dec_text(done as nat) + "/"@ + dec_text(total as nat) + " ("@ + (if total > 0 {
        fixed1_text(div_round(done as nat * 1000, total as nat))
    } else {
        fixed1_text(0)
    }) + "%)"@
}

/// The chunk line: the chunks done of how many while a repetition with
/// chunks is running, a dash otherwise.
pub open spec fn chunk_text(running: bool, index: usize, total: usize) -> Seq<char> {
    if running && total > 0 {
        "Chunk: "@ + dec_text(index as nat) + "/"@ + dec_text(total as nat)
    } else {
        "Chunk: -"@
    }
}

/// The element of one line of a result.
pub open spec fn result_line_model(line: Seq<char>) -> ElementModel {
    leaf(ElementType::P, line, seq![Attr::Size(14), Attr::MarginBottom(4)])
}

/// What the results container holds: a placeholder while there is no
/// result, else the lines of the result and then, if there is a report, its
/// label and its text.
pub open spec fn results_children(lines: Seq<Seq<char>>, json: Option<Seq<char>>) -> Seq<
    ElementModel,
> {
    if lines.len() == 0 && json is None {
        seq![
            leaf(
                ElementType::P,
                "结果会在这里显示。"@,
                seq![Attr::Size(14), Attr::TextColor("#777777")],
            ),
        ]
    } else {
        Seq::new(lines.len(), |i: int| result_line_model(lines[i])) + match json {
            Some(text) => seq![
                leaf(ElementType::P, "JSON:"@, seq![Attr::Size(14), Attr::MarginTop(8)]),
                leaf(ElementType::P, text, seq![Attr::Size(12), Attr::TextColor("#555555")]),
            ],
            None => Seq::empty(),
        }
    }
}

/// The start button: grey and disabled while the benchmark runs, green and
/// reporting [`START_BENCH_EVENT`] on a click otherwise.
pub open spec fn start_button_model(running: bool) -> ElementModel {
    leaf(
        ElementType::Button,
        if running {
            "测试中..."@
        } else {
            "开始测试"@
        },
        seq![
            Attr::Bg(
                if running {
                    "#9c9c9c"
                } else {
                    "#14b86a"
                },
            ),
            Attr::TextColor("#ffffff"),
            Attr::Padding(12),
            Attr::Radius(8),
            Attr::MarginBottom(12),
            if running {
                Attr::Disabled
            } else {
                Attr::OnClick(START_BENCH_EVENT)
            },
        ],
    )
}

/// The screen for a snapshot: a column of the title, the parameters, the
/// start button, the progress line, the status line, the chunk line and the
/// results.
pub open spec fn main_ui_model(shown: SnapshotView) -> ElementModel {
    container(
        seq![
            Attr::Flex,
            Attr::FlexDirection(FlexDirection::Column),
            Attr::WidthFull,
            Attr::JustifyStart,
            Attr::AlignStart,
            Attr::Padding(16),
        ],
        seq![
            leaf(
                ElementType::P,
                "AstroBox Benchmark"@,
                seq![Attr::Size(28), Attr::MarginBottom(4)],
            ),
            leaf(
                ElementType::P,
                "固定参数: "@ + parameters_text(),
                seq![Attr::Size(14), Attr::TextColor("#666666"), Attr::MarginBottom(12)],
            ),
            start_button_model(shown.running),
            leaf(
                ElementType::P,
                progress_text(shown.progress_done, shown.progress_total),
                seq![Attr::Size(16), Attr::MarginBottom(6)],
            ),
            leaf(
                ElementType::P,
                shown.status,
                seq![Attr::Size(14), Attr::TextColor("#444444"), Attr::MarginBottom(6)],
            ),
            leaf(
                ElementType::P,
                chunk_text(shown.running, shown.chunk_index, shown.chunk_total),
                seq![Attr::Size(14), Attr::TextColor("#444444"), Attr::MarginBottom(12)],
            ),
            container(
                seq![Attr::Flex, Attr::FlexDirection(FlexDirection::Column), Attr::AlignStart],
                results_children(shown.result_lines, shown.result_json),
            ),
        ],
    )
}

/// The progress line.
fn progress_line(done: usize, total: usize) -> (line: String)
    ensures
        line@ == progress_text(done, total),
{
    let mut line = String::from_str("进度: ");
    push_dec(&mut line, done as u128);
    line.append("/");
    push_dec(&mut line, total as u128);
    line.append(" (");
    if total > 0 {
        let numerator: u128 = done as u128 * 1000;
        push_fixed1(&mut line, (2 * numerator + total as u128) / (2 * total as u128));
    } else {
        push_fixed1(&mut line, 0);
    }
    line.append("%)");
    line
}

/// The chunk line.
fn chunk_line(running: bool, index: usize, total: usize) -> (line: String)
    ensures
        line@ == chunk_text(running, index, total),
{
    if running && total > 0 {
        let mut line = String::from_str("Chunk: ");
        push_dec(&mut line, index as u128);
        line.append("/");
        push_dec(&mut line, total as u128);
        line
    } else {
        String::from_str("Chunk: -")
    }
}

/// A paragraph with text and two attributes.
fn paragraph(text: &str, first: Attr, second: Attr) -> (element: Element)
    ensures
        element.model() == leaf(ElementType::P, text@, seq![first, second]),
{
    let element = Element::new(ElementType::P, Some(text)).with(first).with(second);
    assert(element.model().attrs =~= seq![first, second]);
    element
}

/// The results container.
fn build_results(snapshot: &UiSnapshot) -> (element: Element)
    ensures
        element.model() == container(
            seq![Attr::Flex, Attr::FlexDirection(FlexDirection::Column), Attr::AlignStart],
            results_children(snapshot@.result_lines, snapshot@.result_json),
        ),
{
    let mut results = Element::new(ElementType::Div, None).with(Attr::Flex).with(
        Attr::FlexDirection(FlexDirection::Column),
    ).with(Attr::AlignStart);
    let ghost attrs = seq![Attr::Flex, Attr::FlexDirection(FlexDirection::Column), Attr::AlignStart];
    let ghost lines = snapshot@.result_lines;
    let ghost json = snapshot@.result_json;
    assert(results.model().attrs =~= attrs);
    if snapshot.result_lines.len() == 0 && snapshot.result_json.is_none() {
        results = results.child(
            paragraph("结果会在这里显示。", Attr::Size(14), Attr::TextColor("#777777")),
        );
    } else {
        let mut i: usize = 0;
        assert(results.model().children =~= Seq::new(0, |k: int| result_line_model(lines[k])));
        while i < snapshot.result_lines.len()
            invariant
                i <= snapshot.result_lines.len(),
                lines == snapshot@.result_lines,
                results.model() == container(
                    attrs,
                    Seq::new(i as nat, |k: int| result_line_model(lines[k])),
                ),
            decreases snapshot.result_lines.len() - i,
        {
            let line = paragraph(
                snapshot.result_lines[i].as_str(),
                Attr::Size(14),
                Attr::MarginBottom(4),
            );
            results = results.child(line);
            i = i + 1;
            assert(results.model().children =~= Seq::new(
                i as nat,
                |k: int| result_line_model(lines[k]),
            ));
        }
        match &snapshot.result_json {
            Some(text) => {
                let json_label = paragraph("JSON:", Attr::Size(14), Attr::MarginTop(8));
                let json_text = paragraph(text.as_str(), Attr::Size(12), Attr::TextColor("#555555"));
                results = results.child(json_label).child(json_text);
            },
            None => {},
        }
        assert(results.model().children =~= results_children(lines, json));
    }
    results
}

/// The start button.
fn build_start_button(running: bool) -> (element: Element)
    ensures
        element.model() == start_button_model(running),
{
    let label = if running {
        "测试中..."
    } else {
        "开始测试"
    };
    let button = Element::new(ElementType::Button, Some(label)).with(
        Attr::Bg(
            if running {
                "#9c9c9c"
            } else {
                "#14b86a"
            },
        ),
    ).with(Attr::TextColor("#ffffff")).with(Attr::Padding(12)).with(Attr::Radius(8)).with(
        Attr::MarginBottom(12),
    );
    let button = if running {
        button.with(Attr::Disabled)
    } else {
        button.with(Attr::OnClick(START_BENCH_EVENT))
    };
    assert(button.model().attrs =~= start_button_model(running).attrs);
    button
}

/// The screen for a snapshot.
pub fn build_main_ui(snapshot: &UiSnapshot) -> (element: Element)
    ensures
        element.model() == main_ui_model(snapshot@),
{
    let mut subtitle_text = String::from_str("固定参数: ");
    push_parameters(&mut subtitle_text);
    let title = Element::new(ElementType::P, Some("AstroBox Benchmark")).with(Attr::Size(28)).with(
        Attr::MarginBottom(4),
    );
    let subtitle = Element::new(ElementType::P, Some(subtitle_text.as_str())).with(
        Attr::Size(14),
    ).with(Attr::TextColor("#666666")).with(Attr::MarginBottom(12));
    let start_button = build_start_button(snapshot.running);
    let progress_text = progress_line(snapshot.progress_done, snapshot.progress_total);
    let progress = Element::new(ElementType::P, Some(progress_text.as_str())).with(
        Attr::Size(16),
    ).with(Attr::MarginBottom(6));
    let status = Element::new(ElementType::P, Some(snapshot.status.as_str())).with(
        Attr::Size(14),
    ).with(Attr::TextColor("#444444")).with(Attr::MarginBottom(6));
    let chunk_text = chunk_line(snapshot.running, snapshot.chunk_index, snapshot.chunk_total);
    let chunk = Element::new(ElementType::P, Some(chunk_text.as_str())).with(Attr::Size(14)).with(
        Attr::TextColor("#444444"),
    ).with(Attr::MarginBottom(12));
    let results_container = build_results(snapshot);
    assert(title.model().attrs =~= seq![Attr::Size(28), Attr::MarginBottom(4)]);
    assert(subtitle.model().attrs =~= seq![
        Attr::Size(14),
        Attr::TextColor("#666666"),
        Attr::MarginBottom(12),
    ]);
    assert(progress.model().attrs =~= seq![Attr::Size(16), Attr::MarginBottom(6)]);
    assert(status.model().attrs =~= seq![
        Attr::Size(14),
        Attr::TextColor("#444444"),
        Attr::MarginBottom(6),
    ]);
    assert(chunk.model().attrs =~= seq![
        Attr::Size(14),
        Attr::TextColor("#444444"),
        Attr::MarginBottom(12),
    ]);
    let root = Element::new(ElementType::Div, None).with(Attr::Flex).with(
        Attr::FlexDirection(FlexDirection::Column),
    ).with(Attr::WidthFull).with(Attr::JustifyStart).with(Attr::AlignStart).with(
        Attr::Padding(16),
    ).child(title).child(subtitle).child(start_button).child(progress).child(status).child(
        chunk,
    ).child(results_container);
    assert(root.model().attrs =~= main_ui_model(snapshot@).attrs);
    assert(root.model().children =~= main_ui_model(snapshot@).children);
    root
}

/// What a host is asked to render, and into which of its elements.
#[derive(Debug, PartialEq, Eq)]
pub struct RenderRequest {
    /// The host's element.
    pub root: String,
    /// The screen.
    pub element: Element,
}

/// Whether `request` asks for the screen of `state` to be rendered: a
/// request is made exactly when the host's element is known.
pub open spec fn is_request_for(request: Option<RenderRequest>, state: StateView) -> bool {
    match state.root_element_id {
        Some(root) => request matches Some(r) && r.root@ == root && r.element.model()
            == main_ui_model(state.shown),
        None => request is None,
    }
}

/// The request to render the screen of `state`, if the host's element is
/// known.
pub fn render_request(state: &UiState) -> (request: Option<RenderRequest>)
    ensures
        is_request_for(request, state@),
{
    match &state.root_element_id {
        Some(root) => {
            let snapshot = snapshot_from(state);
            Some(RenderRequest { root: root.clone(), element: build_main_ui(&snapshot) })
        },
        None => None,
    }
}

/// Applies an update to the state and returns what is to be rendered after
/// it.
pub fn update_state_and_render(state: &mut UiState, update: StateUpdate) -> (request: Option<
    RenderRequest,
>)
    ensures
        final(state)@ == state_after(old(state)@, update),
        is_request_for(request, final(state)@),
{
    match update {
        StateUpdate::Progress(event) => {
            state.status = format_progress_status(&event);
            state.progress_done = event.completed_steps;
            state.progress_total = event.total_steps;
            state.chunk_index = event.chunk_index;
            state.chunk_total = event.chunk_total;
        },
        StateUpdate::Finished(result) => {
            state.running = false;
            state.progress_done = state.progress_total;
            state.status = String::from_str("测试完成");
            state.result_lines = build_result_lines(&result);
            state.result_json = Some(result.json);
        },
    }
    render_request(state)
}

/// Makes `element_id` the host's element that the screen is rendered into,
/// and returns the request to render the screen there.
pub fn render_main_ui(state: &mut UiState, element_id: &str) -> (request: RenderRequest)
    ensures
        final(state)@ == (StateView { root_element_id: Some(element_id@), ..old(state)@ }),
        request.root@ == element_id@,
        request.element.model() == main_ui_model(old(state)@.shown),
{
    state.root_element_id = Some(String::from_str(element_id));
    let snapshot = snapshot_from(state);
    RenderRequest { root: String::from_str(element_id), element: build_main_ui(&snapshot) }
}

} // verus!
