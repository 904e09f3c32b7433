//! What the chat panel shows.
//!
//! The game draws the panel with its user-interface library; which texts stand there, and in which
//! colors, is decided here.
use vstd::prelude::*;
use vstd::string::*;

use crate::chat::{ChatState, ChatView, ConnectionStatus};
use crate::colors;
use crate::colors::Rgb;
use crate::protocol::{Channel, ChatMessage, ChatMessageView, Team};
use crate::text;

verus! {

/// A text in a color.
#[derive(Debug, PartialEq)]
pub struct Label {
    pub color: Rgb,
    pub text: String,
}

/// The view of a [`Label`].
#[verifier::ext_equal]
pub struct LabelView {
    pub color: Rgb,
    pub text: Seq<char>,
}

impl View for Label {
    type V = LabelView;

    open spec fn view(&self) -> LabelView {
        LabelView { color: self.color, text: self.text@ }
    }
}

/// The view of an optional label.
pub open spec fn label_view(label: Option<Label>) -> Option<LabelView> {
    match label {
        Some(l) => Some(l@),
        None => None,
    }
}

/// The views of a list of labels.
pub open spec fn labels_view(s: Seq<Label>) -> Seq<LabelView> {
    Seq::new(s.len(), |i: int| s[i]@)
}

/// A chat message as it is shown: its sender, then its text in colored spans.
#[derive(Debug, PartialEq)]
pub struct Line {
    pub sender: Label,
    pub spans: Vec<(Rgb, String)>,
}

/// The view of a [`Line`].
#[verifier::ext_equal]
pub struct LineView {
    pub sender: LabelView,
    pub spans: Seq<(Rgb, Seq<char>)>,
}

impl View for Line {
    type V = LineView;

    open spec fn view(&self) -> LineView {
        LineView { sender: self.sender@, spans: colors::spans_view(self.spans@) }
    }
}

/// The views of a list of lines.
pub open spec fn lines_view(s: Seq<Line>) -> Seq<LineView> {
    Seq::new(s.len(), |i: int| s[i]@)
}

/// What the chat panel shows.
#[derive(Debug, PartialEq)]
pub struct Panel {
    /// While the client waits to reconnect.
    pub badge: Option<Label>,
    /// The player's name, or that there is no connection yet.
    pub header: Option<Label>,
    /// The keys that open the input box, beside the player's name.
    pub hint: Option<Label>,
    /// System messages, oldest first; only while the input box is open.
    pub system: Vec<Label>,
    /// Chat messages, oldest first; only while the input box is open.
    pub lines: Vec<Line>,
    /// The channel, in front of the input box; only while the box is open.
    pub prompt: Option<Label>,
}

/// The view of a [`Panel`].
#[verifier::ext_equal]
pub struct PanelView {
    pub badge: Option<LabelView>,
    pub header: Option<LabelView>,
    pub hint: Option<LabelView>,
    pub system: Seq<LabelView>,
    pub lines: Seq<LineView>,
    pub prompt: Option<LabelView>,
}

impl View for Panel {
    type V = PanelView;

    open spec fn view(&self) -> PanelView {
        PanelView {
            badge: label_view(self.badge),
            header: label_view(self.header),
            hint: label_view(self.hint),
            system: labels_view(self.system@),
            lines: lines_view(self.lines@),
            prompt: label_view(self.prompt),
        }
    }
}

/// A shade of gray.
pub open spec fn gray(l: u8) -> Rgb {
    colors::rgb(l, l, l)
}

pub open spec fn badge_of(c: ChatView) -> Option<LabelView> {
    match c.status {
        ConnectionStatus::Reconnecting { attempt, .. } => Some(
            LabelView {
                color: colors::rgb(255, 200, 60),
                text: "Reconnecting… (attempt "@ + text::decimal(attempt as nat) + ")"@,
            },
        ),
        _ => None,
    }
}

/// Whether the player has a name and a team.
pub open spec fn has_identity(c: ChatView) -> bool {
    c.nickname is Some && c.team is Some
}

pub open spec fn header_of(c: ChatView) -> Option<LabelView> {
    if has_identity(c) {
        Some(
            LabelView {
                color: colors::team_color(c.team->0),
                text: "["@ + c.nickname->0 + "]"@,
            },
        )
    } else if c.status == ConnectionStatus::Connecting || c.status
        == ConnectionStatus::Disconnected {
        Some(LabelView { color: gray(120), text: "Connecting…"@ })
    } else {
        None
    }
}

pub open spec fn hint_of(c: ChatView) -> Option<LabelView> {
    if has_identity(c) && !c.active {
        Some(LabelView { color: gray(120), text: "T: chat  Y: team"@ })
    } else {
        None
    }
}

/// A system message as it is shown.
pub open spec fn system_label(text: Seq<char>) -> LabelView {
    LabelView { color: gray(160), text }
}

/// A chat message as it is shown.
pub open spec fn line_of(msg: ChatMessageView) -> LineView {
    LineView {
        sender: LabelView {
            color: colors::team_color(msg.team),
            text: match msg.channel {
                Channel::All => ""@,
                Channel::Team => "[TEAM] "@,
            } + msg.from + ": "@,
        },
        spans: colors::shown(colors::spans_of(msg.text)),
    }
}

pub open spec fn prompt_of(c: ChatView) -> Option<LabelView> {
    if !c.active {
        None
    } else {
        Some(
            match c.channel {
                Channel::All => LabelView { color: gray(200), text: "[ALL] "@ },
                Channel::Team => LabelView {
                    color: colors::team_color(
                        match c.team {
                            Some(team) => team,
                            None => Team::NoTeam,
                        },
                    ),
                    text: "[TEAM] "@,
                },
            },
        )
    }
}

/// What the panel shows of a state.
pub open spec fn panel_of(c: ChatView) -> PanelView {
    PanelView {
        badge: badge_of(c),
        header: header_of(c),
        hint: hint_of(c),
        system: if c.active {
            Seq::new(c.system.len(), |i: int| system_label(c.system[i]))
        } else {
            Seq::empty()
        },
        lines: if c.active {
            Seq::new(c.messages.len(), |i: int| line_of(c.messages[i]))
        } else {
            Seq::empty()
        },
        prompt: prompt_of(c),
    }
}

fn gray_of(l: u8) -> (r: Rgb)
    ensures
        r == gray(l),
{
    Rgb { r: l, g: l, b: l }
}

fn badge(state: &ChatState) -> (r: Option<Label>)
    ensures
        label_view(r) == badge_of(state@),
{
    match state.connection_status {
        ConnectionStatus::Reconnecting { attempt, .. } => {
            let mut text = "Reconnecting… (attempt ".to_owned();
            text::push_decimal(&mut text, attempt as u64);
            text.append(")");
            Some(Label { color: Rgb { r: 255, g: 200, b: 60 }, text })
        },
        _ => None,
    }
}

fn header(state: &ChatState) -> (r: Option<Label>)
    ensures
        label_view(r) == header_of(state@),
{
    if let Some(nick) = &state.nickname {
        if let Some(team) = state.team {
            let mut text = "[".to_owned();
            text.append(nick.as_str());
            text.append("]");
            return Some(Label { color: colors::team_to_color(team), text });
        }
    }
    match state.connection_status {
        ConnectionStatus::Connecting => Some(
            Label { color: gray_of(120), text: "Connecting…".to_owned() },
        ),
        ConnectionStatus::Disconnected => Some(
            Label { color: gray_of(120), text: "Connecting…".to_owned() },
        ),
        _ => None,
    }
}

fn hint(state: &ChatState) -> (r: Option<Label>)
    ensures
        label_view(r) == hint_of(state@),
{
    if state.nickname.is_some() && state.team.is_some() && !state.chat_active {
        Some(Label { color: gray_of(120), text: "T: chat  Y: team".to_owned() })
    } else {
        None
    }
}

/// A chat message as it is shown.
pub fn message_line(msg: &ChatMessage) -> (r: Line)
    ensures
        r@ == line_of(msg@),
{
    let mut text = match msg.channel {
        Channel::All => "".to_owned(),
        Channel::Team => "[TEAM] ".to_owned(),
    };
    text.append(msg.from.as_str());
    text.append(": ");
    Line {
        sender: Label { color: colors::team_to_color(msg.team), text },
        spans: colors::visible_spans(msg.text.as_str()),
    }
}

fn prompt(state: &ChatState) -> (r: Option<Label>)
    ensures
        label_view(r) == prompt_of(state@),
{
    if !state.chat_active {
        return None;
    }
    Some(
        match state.channel {
            Channel::All => Label { color: gray_of(200), text: "[ALL] ".to_owned() },
            Channel::Team => Label {
                color: colors::team_to_color(
                    match state.team {
                        Some(team) => team,
                        None => Team::NoTeam,
                    },
                ),
                text: "[TEAM] ".to_owned(),
            },
        },
    )
}

/// What the panel shows of a state.
pub fn panel(state: &ChatState) -> (r: Panel)
    ensures
        r@ == panel_of(state@),
{
    let mut system: Vec<Label> = Vec::new();
    let mut lines: Vec<Line> = Vec::new();
    if state.chat_active {
        let mut i: usize = 0;
        while i < state.system_messages.len()
            invariant
                i <= state.system_messages@.len(),
                system@.len() == i,
                forall|j: int|
                    0 <= j < i ==> (#[trigger] system@[j])@ == system_label(state@.system[j]),
            decreases state.system_messages@.len() - i,
        {
            system.push(
                Label { color: gray_of(160), text: state.system_messages[i].clone() },
            );
            i += 1;
        }
        let mut k: usize = 0;
        while k < state.messages.len()
            invariant
                k <= state.messages@.len(),
                lines@.len() == k,
                forall|j: int|
                    0 <= j < k ==> (#[trigger] lines@[j])@ == line_of(state@.messages[j]),
            decreases state.messages@.len() - k,
        {
            lines.push(message_line(&state.messages[k]));
            k += 1;
        }
    }
    let r = Panel {
        badge: badge(state),
        header: header(state),
        hint: hint(state),
        system,
        lines,
        prompt: prompt(state),
    };
    assert(r@.system =~= panel_of(state@).system);
    assert(r@.lines =~= panel_of(state@).lines);
    r
}

/// While the input box is closed, the panel shows no history and no prompt.
pub proof fn lemma_collapsed_panel(c: ChatView)
    requires
        !c.active,
    ensures
        panel_of(c).system.len() == 0,
        panel_of(c).lines.len() == 0,
        panel_of(c).prompt is None,
{
}

/// The views of labels, lines and panels are their fields, the lists in order.
pub proof fn lemma_panel_views(
    label: Label,
    line: Line,
    panel: Panel,
    labels: Seq<Label>,
    lines: Seq<Line>,
    maybe: Option<Label>,
)
    ensures
        label@.color == label.color,
        label@.text == label.text@,
        line@.sender == line.sender@,
        line@.spans == colors::spans_view(line.spans@),
        maybe is None ==> label_view(maybe) is None,
        maybe is Some ==> label_view(maybe) == Some(maybe->0@),
        labels_view(labels).len() == labels.len(),
        forall|i: int| 0 <= i < labels.len() ==> #[trigger] labels_view(labels)[i] == labels[i]@,
        lines_view(lines).len() == lines.len(),
        forall|i: int| 0 <= i < lines.len() ==> #[trigger] lines_view(lines)[i] == lines[i]@,
        panel@.badge == label_view(panel.badge),
        panel@.header == label_view(panel.header),
        panel@.hint == label_view(panel.hint),
        panel@.system == labels_view(panel.system@),
        panel@.lines == lines_view(panel.lines@),
        panel@.prompt == label_view(panel.prompt),
{
}

/// While the input box is open, the panel shows every system message in gray and every chat message,
/// each history in its order.
pub proof fn lemma_open_panel(c: ChatView)
    requires
        c.active,
    ensures
        panel_of(c).system.len() == c.system.len(),
        forall|i: int|
            0 <= i < c.system.len() ==> (#[trigger] panel_of(c).system[i]).text == c.system[i]
                && panel_of(c).system[i].color == (Rgb { r: 160, g: 160, b: 160 }),
        panel_of(c).lines.len() == c.messages.len(),
        forall|i: int|
            0 <= i < c.messages.len() ==> #[trigger] panel_of(c).lines[i] == line_of(c.messages[i]),
        panel_of(c).hint is None,
        c.channel == Channel::All ==> panel_of(c).prompt == Some(
            LabelView { color: Rgb { r: 200, g: 200, b: 200 }, text: "[ALL] "@ },
        ),
        c.channel == Channel::Team && c.team is Some ==> panel_of(c).prompt == Some(
            LabelView { color: colors::team_color(c.team->0), text: "[TEAM] "@ },
        ),
        c.channel == Channel::Team && c.team is None ==> panel_of(c).prompt == Some(
            LabelView { color: Rgb { r: 200, g: 200, b: 200 }, text: "[TEAM] "@ },
        ),
{
}

/// A chat message is shown with its sender, in the color of the sender's team, and with its whole
/// text but the color codes; what is said to a team is marked.
pub proof fn lemma_message_line(msg: ChatMessageView)
    ensures
        line_of(msg).sender.color == colors::team_color(msg.team),
        msg.channel == Channel::All ==> line_of(msg).sender.text == msg.from + ": "@,
        msg.channel == Channel::Team ==> line_of(msg).sender.text == "[TEAM] "@ + msg.from + ": "@,
        line_of(msg).spans == colors::shown(colors::spans_of(msg.text)),
{
    reveal_strlit("");
    assert(""@ + msg.from + ": "@ =~= msg.from + ": "@);
}

/// The badge stands there exactly while the client waits to reconnect, with the attempt's number; the
/// header has the player's name in the color of the team, or says that there is no connection yet;
/// the keys are shown to a player who is not typing.
pub proof fn lemma_panel_head(c: ChatView)
    ensures
        c.status matches ConnectionStatus::Reconnecting { attempt, .. } ==> panel_of(c).badge
            == Some(
            LabelView {
                color: Rgb { r: 255, g: 200, b: 60 },
                text: "Reconnecting… (attempt "@ + text::decimal(attempt as nat) + ")"@,
            },
        ),
        !(c.status is Reconnecting) ==> panel_of(c).badge is None,
        c.nickname is Some && c.team is Some ==> panel_of(c).header == Some(
            LabelView {
                color: colors::team_color(c.team->0),
                text: "["@ + c.nickname->0 + "]"@,
            },
        ),
        (c.nickname is None || c.team is None) && (c.status is Connecting
            || c.status is Disconnected) ==> panel_of(c).header == Some(
            LabelView { color: Rgb { r: 120, g: 120, b: 120 }, text: "Connecting…"@ },
        ),
        (c.nickname is None || c.team is None) && (c.status is Connected
            || c.status is Reconnecting) ==> panel_of(c).header is None,
        c.nickname is Some && c.team is Some && !c.active ==> panel_of(c).hint == Some(
            LabelView { color: Rgb { r: 120, g: 120, b: 120 }, text: "T: chat  Y: team"@ },
        ),
        c.nickname is None || c.team is None || c.active ==> panel_of(c).hint is None,
{
}

} // verus!
