//! Running commands and typed lines in a session: the decisions of the
//! command line, with the work that needs geometry or the view handed back
//! to the caller.
use vstd::prelude::*;
use crate::command::{command_of, coord_split, Command, CommandModel, CoordParts};
use crate::document::EntityId;
use crate::input::{command_line_action, line_action, line_logged, LineAction, LineActionModel, NumberReading};
use crate::document::{text_of, BoundingBox};
use crate::session::{command_effect, place_text_spec, session_wf, Session, SessionModel};
use crate::tools::ToolKind;
use crate::words::{trim, trimmed};

verus! {

/// What is left to the caller after a command ran.
pub enum ExecOutcome {
    /// Nothing more to do.
    Done,
    /// Hatch the selected boundaries.
    HatchSelection,
    /// Break the selected entities into their pieces.
    Explode,
    /// Join the selected connected curves.
    Join,
    /// Frame the whole drawing.
    ZoomExtents,
    /// Zoom by the factor this text gives, or frame the drawing when it is
    /// not a positive number.
    ZoomScale(String),
}

/// What is left to the caller, as contracts see it.
pub enum ExecOutcomeModel {
    Done,
    HatchSelection,
    Explode,
    Join,
    ZoomExtents,
    ZoomScale(Seq<char>),
}

impl View for ExecOutcome {
    type V = ExecOutcomeModel;

    open spec fn view(&self) -> ExecOutcomeModel {
        match self {
            ExecOutcome::Done => ExecOutcomeModel::Done,
            ExecOutcome::HatchSelection => ExecOutcomeModel::HatchSelection,
            ExecOutcome::Explode => ExecOutcomeModel::Explode,
            ExecOutcome::Join => ExecOutcomeModel::Join,
            ExecOutcome::ZoomExtents => ExecOutcomeModel::ZoomExtents,
            ExecOutcome::ZoomScale(t) => ExecOutcomeModel::ZoomScale(t@),
        }
    }
}

/// What is left to the caller after a typed line ran.
pub enum RunOutcome {
    Nothing,
    /// A text entity was placed, holding the typed content; its anchor is
    /// the caller's.
    TextPlaced(EntityId),
    /// Commit the path that was being drawn, closed or not.
    CommitPath { close: bool },
    /// Place the tool's next point at the typed distance from its reference
    /// point, towards the cursor.
    Step,
    /// Place the tool's next point at the typed coordinate.
    Point(CoordParts),
    /// The line was a command; what is left of it.
    Executed(ExecOutcome),
}

/// What is left to the caller after a typed line, as contracts see it.
pub enum RunOutcomeModel {
    Nothing,
    TextPlaced(EntityId),
    CommitPath { close: bool },
    Step,
    Point((bool, bool, Seq<char>, Seq<char>)),
    Executed(ExecOutcomeModel),
}

impl View for RunOutcome {
    type V = RunOutcomeModel;

    open spec fn view(&self) -> RunOutcomeModel {
        match self {
            RunOutcome::Nothing => RunOutcomeModel::Nothing,
            RunOutcome::TextPlaced(id) => RunOutcomeModel::TextPlaced(*id),
            RunOutcome::CommitPath { close } => RunOutcomeModel::CommitPath { close: *close },
            RunOutcome::Step => RunOutcomeModel::Step,
            RunOutcome::Point(p) => RunOutcomeModel::Point((p.relative, p.polar, p.first@, p.second@)),
            RunOutcome::Executed(o) => RunOutcomeModel::Executed(o@),
        }
    }
}

/// The modify tools that act on the selection as it is when they start.
pub open spec fn takes_selection(t: ToolKind) -> bool {
    t is Move || t is Copy || t is Rotate || t is Scale || t is Mirror || t is Stretch
}

/// The session with the select tool active.
pub open spec fn to_select(s: SessionModel) -> SessionModel {
    SessionModel { tool: ToolKind::Select, tool_ids: Seq::empty(), tool_value: None, ..s }
}

/// The session after running the command `c`, and what is left to the
/// caller.
pub open spec fn execute_spec(s: SessionModel, c: CommandModel) -> (SessionModel, ExecOutcomeModel) {
    match c {
        CommandModel::Activate { tool, value } => (
            SessionModel {
                tool,
                tool_ids: if takes_selection(tool) {
                    s.selection
                } else {
                    Seq::empty()
                },
                tool_value: value,
                ..s
            },
            ExecOutcomeModel::Done,
        ),
        CommandModel::Cancel => (
            to_select(
                SessionModel {
                    selection: if s.tool is Select {
                        Seq::empty()
                    } else {
                        s.selection
                    },
                    ..s
                },
            ),
            ExecOutcomeModel::Done,
        ),
        CommandModel::Hatch => if s.selection.len() == 0 {
            (
                SessionModel { tool: ToolKind::Hatch, tool_ids: Seq::empty(), tool_value: None, ..s },
                ExecOutcomeModel::Done,
            )
        } else {
            (s, ExecOutcomeModel::HatchSelection)
        },
        CommandModel::Explode => (s, ExecOutcomeModel::Explode),
        CommandModel::Join => (s, ExecOutcomeModel::Join),
        CommandModel::ZoomExtents => (s, ExecOutcomeModel::ZoomExtents),
        CommandModel::ZoomScale(t) => (s, ExecOutcomeModel::ZoomScale(t)),
        CommandModel::Unknown(_) => (s, ExecOutcomeModel::Done),
        _ => match command_effect(s, c) {
            Some(r) => (r, ExecOutcomeModel::Done),
            None => (s, ExecOutcomeModel::Done),
        },
    }
}

/// The session after the typed line `text`, and what is left to the
/// caller. `picks`, `has_reference`, `number` and `coordinate_reads` are as
/// for `line_action`; `text_extent` is the extent of the text that the line
/// would place.
pub open spec fn run_spec(
    s: SessionModel,
    picks: nat,
    has_reference: bool,
    number: NumberReading,
    coordinate_reads: bool,
    text_extent: Option<BoundingBox>,
    text: Seq<char>,
) -> (SessionModel, RunOutcomeModel) {
    let a = line_action(s.tool, picks, has_reference, number, coordinate_reads, text);
    let m = if line_logged(s.tool, text) {
        SessionModel { command_log: s.command_log.push(trim(text)), ..s }
    } else {
        s
    };
    match a {
        LineActionModel::PlaceText(c) => (
            to_select(place_text_spec(m, c, text_extent)),
            RunOutcomeModel::TextPlaced(EntityId(m.document.next_id)),
        ),
        LineActionModel::EndText => (to_select(m), RunOutcomeModel::Nothing),
        LineActionModel::FinishPath => (to_select(m), RunOutcomeModel::CommitPath { close: false }),
        LineActionModel::ClosePath => (to_select(m), RunOutcomeModel::CommitPath { close: true }),
        LineActionModel::SetPolygonSides(n) => (
            SessionModel { tool: ToolKind::Polygon { sides: Some(n) }, ..m },
            RunOutcomeModel::Nothing,
        ),
        LineActionModel::SetToolValue => (
            SessionModel { tool_value: Some(trim(text)), ..m },
            RunOutcomeModel::Nothing,
        ),
        LineActionModel::StepFromReference => (m, RunOutcomeModel::Step),
        LineActionModel::Point(p) => (m, RunOutcomeModel::Point(p)),
        LineActionModel::Run { command, remember } => {
            let m2 = if remember {
                SessionModel { last_command: Some(trim(text)), ..m }
            } else {
                m
            };
            let (r, o) = execute_spec(m2, command);
            (r, RunOutcomeModel::Executed(o))
        },
    }
}

/// With the select tool active, a line that is not taken as a typed point
/// is a command: it is logged trimmed, it becomes the command to repeat
/// unless it cancels or is unknown, and it runs.
pub proof fn lemma_select_tool_runs_commands(
    s: SessionModel,
    picks: nat,
    number: NumberReading,
    coordinate_reads: bool,
    text_extent: Option<BoundingBox>,
    text: Seq<char>,
)
    requires
        s.tool is Select,
        !(coordinate_reads && coord_split(trim(text)) is Some),
    ensures
        ({
            let c = command_of(text);
            let m = SessionModel {
                command_log: s.command_log.push(trim(text)),
                last_command: if c is Cancel || c is Unknown {
                    s.last_command
                } else {
                    Some(trim(text))
                },
                ..s
            };
            let (r, o) = execute_spec(m, c);
            &&& run_spec(s, picks, false, number, coordinate_reads, text_extent, text) == (
                r,
                RunOutcomeModel::Executed(o),
            )
            &&& r.command_log == s.command_log.push(trim(text))
            &&& r.last_command == m.last_command
        }),
{
}

fn copy_ids(v: &Vec<EntityId>) -> (r: Vec<EntityId>)
    ensures
        r@ == v@,
{
    let mut r: Vec<EntityId> = Vec::new();
    let mut i: usize = 0;
    while i < v.len()
        invariant
            i <= v.len(),
            r@ == v@.subrange(0, i as int),
        decreases v.len() - i,
    {
        r.push(v[i]);
        i = i + 1;
    }
    assert(r@ =~= v@);
    r
}

impl Session {
    fn select_tool(&mut self)
        ensures
            final(self)@ == to_select(old(self)@),
    {
        self.tool = ToolKind::Select;
        self.tool_ids = Vec::new();
        self.tool_value = None;
        assert(self@.tool_ids =~= Seq::<EntityId>::empty());
    }

    /// Runs the command `cmd`: a tool starts (a modify tool with the current
    /// selection), cancel returns to the select tool (clearing the selection
    /// when it was already active), hatch starts the hatch tool when nothing
    /// is selected, and the session commands act on the drawing, the
    /// selection and the layers. Returns what is left to the caller.
    pub fn execute(&mut self, cmd: Command) -> (o: ExecOutcome)
        requires
            old(self).document.layers.len() < usize::MAX,
        ensures
            (final(self)@, o@) == execute_spec(old(self)@, cmd@),
            session_wf(old(self)@) ==> session_wf(final(self)@),
    {
        match cmd {
            Command::Activate { tool, value } => {
                let takes = match tool {
                    ToolKind::Move | ToolKind::Copy | ToolKind::Rotate | ToolKind::Scale
                    | ToolKind::Mirror | ToolKind::Stretch => true,
                    _ => false,
                };
                self.tool_ids = if takes {
                    copy_ids(&self.selection)
                } else {
                    Vec::new()
                };
                assert(!takes ==> self@.tool_ids =~= Seq::<EntityId>::empty());
                self.tool = tool;
                self.tool_value = value;
                ExecOutcome::Done
            },
            Command::Cancel => {
                let was_select = match self.tool {
                    ToolKind::Select => true,
                    _ => false,
                };
                if was_select {
                    self.selection = Vec::new();
                    assert(self@.selection =~= Seq::<EntityId>::empty());
                }
                self.select_tool();
                ExecOutcome::Done
            },
            Command::Hatch => {
                if self.selection.len() == 0 {
                    self.tool = ToolKind::Hatch;
                    self.tool_ids = Vec::new();
                    self.tool_value = None;
                    assert(self@.tool_ids =~= Seq::<EntityId>::empty());
                    ExecOutcome::Done
                } else {
                    ExecOutcome::HatchSelection
                }
            },
            Command::Explode => ExecOutcome::Explode,
            Command::Join => ExecOutcome::Join,
            Command::ZoomExtents => ExecOutcome::ZoomExtents,
            Command::ZoomScale(t) => ExecOutcome::ZoomScale(t),
            Command::Unknown(_) => ExecOutcome::Done,
            other => {
                self.apply_command(&other);
                ExecOutcome::Done
            },
        }
    }

    /// Runs the line `text` typed into the command line while `picks` of the
    /// active tool's points are placed: logs it (all but the empty line that
    /// finishes a path), remembers it for repeat when it is a command other
    /// than cancel or unknown, updates the tool, and runs the command.
    /// `has_reference`, `number` and `coordinate_reads` are the caller's
    /// readings, as for `command_line_action`, and `text_extent` is the
    /// extent of the text the line places, if it places one. A line typed
    /// into the anchored text tool places a text entity holding the line,
    /// with each `\n` made a line break. Returns what is left to the caller.
    pub fn run_command(
        &mut self,
        text: &str,
        picks: usize,
        has_reference: bool,
        number: NumberReading,
        coordinate_reads: bool,
        text_extent: Option<BoundingBox>,
    ) -> (r: RunOutcome)
        requires
            old(self).document.layers.len() < usize::MAX,
            old(self).document.next_id < u64::MAX,
        ensures
            (final(self)@, r@) == run_spec(
                old(self)@,
                picks as nat,
                has_reference,
                number,
                coordinate_reads,
                text_extent,
                text@,
            ),
            r matches RunOutcome::TextPlaced(id) ==> final(self)@.document.entities.last().id == id
                && text_of(final(self)@.document, final(self)@.document.entities.last()) == Some(
                crate::input::unescape(trim(text@)),
            ),
            session_wf(old(self)@) ==> session_wf(final(self)@),
            session_wf(old(self)@) ==> session_wf(final(self)@),
    {
        let (action, log) = command_line_action(&self.tool, picks, has_reference, number, coordinate_reads, text);
        match log {
            Some(l) => {
                let ghost before = self.command_log@;
                self.command_log.push(l);
                assert(self.command_log@.map_values(|l: String| l@) =~= before.map_values(|l: String| l@).push(trim(text@)));
            },
            None => {},
        }
        match action {
            LineAction::PlaceText(c) => {
                let id = self.place_text(c, text_extent);
                self.select_tool();
                RunOutcome::TextPlaced(id)
            },
            LineAction::EndText => {
                self.select_tool();
                RunOutcome::Nothing
            },
            LineAction::FinishPath => {
                self.select_tool();
                RunOutcome::CommitPath { close: false }
            },
            LineAction::ClosePath => {
                self.select_tool();
                RunOutcome::CommitPath { close: true }
            },
            LineAction::SetPolygonSides(n) => {
                self.tool = ToolKind::Polygon { sides: Some(n) };
                RunOutcome::Nothing
            },
            LineAction::SetToolValue => {
                self.tool_value = Some(trimmed(text));
                RunOutcome::Nothing
            },
            LineAction::StepFromReference => RunOutcome::Step,
            LineAction::Point(p) => RunOutcome::Point(p),
            LineAction::Run { command, remember } => {
                if remember {
                    self.last_command = Some(trimmed(text));
                }
                RunOutcome::Executed(self.execute(command))
            },
        }
    }

    /// Runs the last remembered command line again (a right-click on the
    /// canvas); `None` when there is none. The readings are the caller's, of
    /// that line.
    pub fn repeat_last_command(
        &mut self,
        picks: usize,
        has_reference: bool,
        number: NumberReading,
        coordinate_reads: bool,
        text_extent: Option<BoundingBox>,
    ) -> (r: Option<RunOutcome>)
        requires
            old(self).document.layers.len() < usize::MAX,
            old(self).document.next_id < u64::MAX,
        ensures
            match old(self)@.last_command {
                None => r is None && final(self)@ == old(self)@,
                Some(t) => r matches Some(o) && (final(self)@, o@) == run_spec(
                    old(self)@,
                    picks as nat,
                    has_reference,
                    number,
                    coordinate_reads,
                    text_extent,
                    t,
                ),
            },
            session_wf(old(self)@) ==> session_wf(final(self)@),
    {
        match &self.last_command {
            Some(c) => {
                let t = c.clone();
                Some(self.run_command(t.as_str(), picks, has_reference, number, coordinate_reads, text_extent))
            },
            None => None,
        }
    }
}


/// Starting a tool makes it the active tool with the typed value. The modify
/// tools Move, Copy, Rotate, Scale, Mirror and Stretch act on the selection
/// as it is when they start; every other tool acts on no entities. The
/// drawing and the selection stay as they were.
pub proof fn lemma_activate_takes_selection(s: SessionModel, t: ToolKind, v: Option<Seq<char>>)
    ensures
        ({
            let (r, o) = execute_spec(s, CommandModel::Activate { tool: t, value: v });
            &&& r.tool == t
            &&& r.tool_value == v
            &&& r.document == s.document
            &&& r.selection == s.selection
            &&& r.history == s.history
            &&& o == ExecOutcomeModel::Done
            &&& (t is Move || t is Copy || t is Rotate || t is Scale || t is Mirror || t is Stretch)
                ==> r.tool_ids == s.selection
            &&& !(t is Move || t is Copy || t is Rotate || t is Scale || t is Mirror || t is Stretch)
                ==> r.tool_ids.len() == 0
        }),
{
}

} // verus!
