//! The bar as a whole: which widget gets which message, and on which
//! monitor the bar stands.

use vstd::prelude::*;
use crate::ext::monitor_ext::{
    connector_position, connector_views, lemma_connector_position, Monitor, MonitorExt,
};
use crate::widgets::workspaces::{message_views, HyprlandMessage, HyprlandMessageView};

verus! {

/// What the bar as a whole can be told.
#[derive(Clone, Debug, PartialEq, Eq)]
pub enum AppMessage {
    /// Stand on the monitor with this connector; on the first monitor
    /// where none is named.
    SetMonitor { monitor: Option<String> },
}

/// What an [`AppMessage`] holds.
pub ghost enum AppMessageView {
    SetMonitor { monitor: Option<Seq<char>> },
}

impl View for AppMessage {
    type V = AppMessageView;

    open spec fn view(&self) -> AppMessageView {
        match self {
            AppMessage::SetMonitor { monitor: Some(monitor) } => AppMessageView::SetMonitor {
                monitor: Some(monitor@),
            },
            AppMessage::SetMonitor { monitor: None } => AppMessageView::SetMonitor {
                monitor: None,
            },
        }
    }
}

/// Who receives messages.
#[derive(Clone, Copy, Debug, PartialEq, Eq, Structural)]
pub enum Consumer {
    /// The registry of workspaces.
    Workspaces,
    /// The focused-window widget.
    Focused,
    /// The keyboard-layout widget.
    Language,
    /// The bar as a whole.
    App,
}

/// The one consumer of a message, if it has one: changes of workspaces go
/// to the registry, the focused window to its widget, layout switches to
/// theirs, and monitors that come and go to the bar as a whole.
pub open spec fn route_of(message: HyprlandMessageView) -> Option<Consumer> {
    match message {
        HyprlandMessageView::Add { .. } => Some(Consumer::Workspaces),
        HyprlandMessageView::Remove { .. } => Some(Consumer::Workspaces),
        HyprlandMessageView::Active { .. } => Some(Consumer::Workspaces),
        HyprlandMessageView::ActiveWindow { .. } => Some(Consumer::Focused),
        HyprlandMessageView::SwitchKeyboardLayout { .. } => Some(Consumer::Language),
        HyprlandMessageView::AddMonitor { .. } => Some(Consumer::App),
        HyprlandMessageView::RemoveMonitor { .. } => Some(Consumer::App),
        HyprlandMessageView::Start => None,
    }
}

/// The messages that one consumer receives of a run of messages: those
/// routed to it, each once, in the order in which they were sent.
pub open spec fn delivered(messages: Seq<HyprlandMessageView>, consumer: Consumer) -> Seq<
    HyprlandMessageView,
>
    decreases messages.len(),
{
    if messages.len() == 0 {
        Seq::empty()
    } else if route_of(messages.last()) == Some(consumer) {
        delivered(messages.drop_last(), consumer).push(messages.last())
    } else {
        delivered(messages.drop_last(), consumer)
    }
}

/// What a monitor message tells the bar as a whole: to stand on a monitor
/// that was added, and to fall back when one was removed.
pub open spec fn monitor_message(message: HyprlandMessageView) -> Option<AppMessageView> {
    match message {
        HyprlandMessageView::AddMonitor { monitor } => Some(
            AppMessageView::SetMonitor { monitor: Some(monitor) },
        ),
        HyprlandMessageView::RemoveMonitor { .. } => Some(
            AppMessageView::SetMonitor { monitor: None },
        ),
        _ => None,
    }
}

/// `places` are the places, going up, of exactly the messages of a run that
/// are routed to a consumer, and `received` holds the messages at those
/// places.
pub open spec fn picks(
    places: Seq<int>,
    messages: Seq<HyprlandMessageView>,
    consumer: Consumer,
    received: Seq<HyprlandMessageView>,
) -> bool {
    &&& places.len() == received.len()
    &&& forall|i: int|
        0 <= i < places.len() ==> 0 <= #[trigger] places[i] < messages.len() && messages[places[i]]
            == received[i]
    &&& forall|i: int, j: int|
        0 <= i < j < places.len() ==> #[trigger] places[i] < #[trigger] places[j]
    &&& forall|k: int|
        0 <= k < messages.len() ==> (route_of(#[trigger] messages[k]) == Some(consumer)
            <==> places.contains(k))
}

/// Law: a consumer receives the messages that were routed to it and no
/// others, each once, in the order in which they were sent.
pub proof fn lemma_delivery_keeps_order(messages: Seq<HyprlandMessageView>, consumer: Consumer)
    ensures
        exists|places: Seq<int>|
            #[trigger] picks(places, messages, consumer, delivered(messages, consumer)),
    decreases messages.len(),
{
    let received = delivered(messages, consumer);
    if messages.len() == 0 {
        let places = Seq::<int>::empty();
        assert(picks(places, messages, consumer, received));
    } else {
        let front = messages.drop_last();
        let last = messages.len() - 1;
        lemma_delivery_keeps_order(front, consumer);
        let before = choose|places: Seq<int>|
            #[trigger] picks(places, front, consumer, delivered(front, consumer));
        let places = if route_of(messages.last()) == Some(consumer) {
            before.push(last)
        } else {
            before
        };
        assert forall|i: int| 0 <= i < places.len() implies 0 <= #[trigger] places[i]
            < messages.len() && messages[places[i]] == received[i] by {
            if i < before.len() {
                assert(front[before[i]] == delivered(front, consumer)[i]);
            }
        }
        assert forall|i: int, j: int| 0 <= i < j < places.len() implies #[trigger] places[i]
            < #[trigger] places[j] by {
            if j < before.len() {
                assert(before[i] < before[j]);
            } else {
                assert(before[i] < front.len());
            }
        }
        assert forall|k: int| 0 <= k < messages.len() implies (route_of(#[trigger] messages[k])
            == Some(consumer) <==> places.contains(k)) by {
            if k < front.len() {
                assert(front[k] == messages[k]);
                if before.contains(k) {
                    let i = choose|i: int| 0 <= i < before.len() && before[i] == k;
                    assert(places[i] == k);
                }
                if places.contains(k) {
                    let i = choose|i: int| 0 <= i < places.len() && places[i] == k;
                    assert(i < before.len());
                    assert(before[i] == k);
                }
            } else {
                if route_of(messages.last()) == Some(consumer) {
                    assert(places[places.len() - 1] == k);
                } else if places.contains(k) {
                    let i = choose|i: int| 0 <= i < places.len() && places[i] == k;
                    assert(before[i] < front.len());
                }
            }
        }
        assert(picks(places, messages, consumer, received));
    }
}

/// Law: no message is delivered to two consumers.
pub proof fn lemma_one_consumer(message: HyprlandMessageView, first: Consumer, second: Consumer)
    requires
        route_of(message) == Some(first),
        route_of(message) == Some(second),
    ensures
        first == second,
{
}

/// The messages of a run, parted by consumer.
#[derive(Clone, Debug, PartialEq, Eq)]
pub struct Deliveries {
    pub workspaces: Vec<HyprlandMessage>,
    pub focused: Vec<HyprlandMessage>,
    pub language: Vec<HyprlandMessage>,
    pub app: Vec<HyprlandMessage>,
}

/// The bar as a whole: the connector of the monitor it stands on, `None`
/// where it stands on the first monitor.
#[derive(Clone, Debug, PartialEq, Eq)]
pub struct AppModel {
    pub monitor: Option<String>,
}

impl View for AppModel {
    type V = Option<Seq<char>>;

    open spec fn view(&self) -> Option<Seq<char>> {
        match self.monitor {
            Some(monitor) => Some(monitor@),
            None => None,
        }
    }
}

/// The monitor that the bar stands on after a message: the named one if
/// the display has a monitor on that connector, else the first.
pub open spec fn chosen_monitor(
    connectors: Seq<Option<Seq<char>>>,
    message: AppMessageView,
) -> Option<Seq<char>> {
    match message {
        AppMessageView::SetMonitor { monitor: Some(monitor) } => if connector_position(
            connectors,
            monitor,
        ) < connectors.len() {
            Some(monitor)
        } else {
            None
        },
        AppMessageView::SetMonitor { monitor: None } => None,
    }
}

/// The place of the monitor that the bar stands on among the monitors of
/// the display: that of the chosen connector if a monitor hangs on it, else
/// the first.
pub open spec fn shown_monitor(chosen: Option<Seq<char>>, connectors: Seq<Option<Seq<char>>>) -> int {
    match chosen {
        Some(monitor) => if connector_position(connectors, monitor) < connectors.len() {
            connector_position(connectors, monitor)
        } else {
            0
        },
        None => 0,
    }
}

impl AppModel {
    /// The bar on the first monitor.
    pub fn new() -> (model: Self)
        ensures
            model@ is None,
    {
        AppModel { monitor: None }
    }

    /// The consumer of a message, if it has one.
    pub fn route(message: &HyprlandMessage) -> (consumer: Option<Consumer>)
        ensures
            consumer == route_of(message@),
    {
        match message {
            HyprlandMessage::Add { .. } => Some(Consumer::Workspaces),
            HyprlandMessage::Remove { .. } => Some(Consumer::Workspaces),
            HyprlandMessage::Active { .. } => Some(Consumer::Workspaces),
            HyprlandMessage::ActiveWindow { .. } => Some(Consumer::Focused),
            HyprlandMessage::SwitchKeyboardLayout { .. } => Some(Consumer::Language),
            HyprlandMessage::AddMonitor { .. } => Some(Consumer::App),
            HyprlandMessage::RemoveMonitor { .. } => Some(Consumer::App),
            HyprlandMessage::Start => None,
        }
    }

    /// Parts a run of messages by consumer. Each consumer gets the messages
    /// routed to it, each once, in the order of the run.
    pub fn fan_out(messages: Vec<HyprlandMessage>) -> (deliveries: Deliveries)
        ensures
            message_views(deliveries.workspaces@) == delivered(
                message_views(messages@),
                Consumer::Workspaces,
            ),
            message_views(deliveries.focused@) == delivered(
                message_views(messages@),
                Consumer::Focused,
            ),
            message_views(deliveries.language@) == delivered(
                message_views(messages@),
                Consumer::Language,
            ),
            message_views(deliveries.app@) == delivered(message_views(messages@), Consumer::App),
    {
        let ghost all = message_views(messages@);
        let mut workspaces: Vec<HyprlandMessage> = Vec::new();
        let mut focused: Vec<HyprlandMessage> = Vec::new();
        let mut language: Vec<HyprlandMessage> = Vec::new();
        let mut app: Vec<HyprlandMessage> = Vec::new();
        assert(all.take(0) =~= Seq::empty());
        assert(message_views(workspaces@) =~= Seq::empty());
        assert(message_views(focused@) =~= Seq::empty());
        assert(message_views(language@) =~= Seq::empty());
        assert(message_views(app@) =~= Seq::empty());
        for message in iter: messages
            invariant
                iter.seq() == messages@,
                all == message_views(messages@),
                message_views(workspaces@) == delivered(
                    all.take(iter.index() as int),
                    Consumer::Workspaces,
                ),
                message_views(focused@) == delivered(
                    all.take(iter.index() as int),
                    Consumer::Focused,
                ),
                message_views(language@) == delivered(
                    all.take(iter.index() as int),
                    Consumer::Language,
                ),
                message_views(app@) == delivered(all.take(iter.index() as int), Consumer::App),
        {
            let ghost count = iter.index() as int;
            let ghost sent = message@;
            assert(all.take(count + 1).drop_last() =~= all.take(count));
            assert(all.take(count + 1).last() == sent);
            match Self::route(&message) {
                Some(Consumer::Workspaces) => {
                    let ghost before = message_views(workspaces@);
                    workspaces.push(message);
                    assert(message_views(workspaces@) =~= before.push(sent));
                },
                Some(Consumer::Focused) => {
                    let ghost before = message_views(focused@);
                    focused.push(message);
                    assert(message_views(focused@) =~= before.push(sent));
                },
                Some(Consumer::Language) => {
                    let ghost before = message_views(language@);
                    language.push(message);
                    assert(message_views(language@) =~= before.push(sent));
                },
                Some(Consumer::App) => {
                    let ghost before = message_views(app@);
                    app.push(message);
                    assert(message_views(app@) =~= before.push(sent));
                },
                None => {},
            }
        }
        assert(all.take(messages@.len() as int) =~= all);
        Deliveries { workspaces, focused, language, app }
    }

    /// What a message about a monitor tells the bar as a whole; `None` for
    /// any other message.
    pub fn monitor_message(message: HyprlandMessage) -> (told: Option<AppMessage>)
        ensures
            match told {
                Some(told) => Some(told@),
                None => None,
            } == monitor_message(message@),
    {
        match message {
            HyprlandMessage::AddMonitor { monitor } => Some(
                AppMessage::SetMonitor { monitor: Some(monitor) },
            ),
            HyprlandMessage::RemoveMonitor { .. } => Some(AppMessage::SetMonitor { monitor: None }),
            _ => None,
        }
    }

    /// Handles one message, with the monitors of the display.
    pub fn update(&mut self, message: AppMessage, monitors: &Vec<Monitor>)
        ensures
            final(self)@ == chosen_monitor(connector_views(monitors@), message@),
    {
        let AppMessage::SetMonitor { monitor } = message;
        assert(connector_views(monitors@).len() == monitors@.len());
        self.monitor = match monitor {
            Some(monitor) => match Monitor::for_connector(monitors, monitor.as_str()) {
                Some(_) => Some(monitor),
                None => None,
            },
            None => None,
        };
    }

    /// The place of the monitor that the bar stands on among the monitors
    /// of the display, which has one at least.
    pub fn monitor(&self, monitors: &Vec<Monitor>) -> (index: usize)
        requires
            monitors@.len() > 0,
        ensures
            index == shown_monitor(self@, connector_views(monitors@)),
            index < monitors@.len(),
    {
        proof {
            if let Some(chosen) = self@ {
                lemma_connector_position(connector_views(monitors@), chosen);
            }
            assert(connector_views(monitors@).len() == monitors@.len());
        }
        match &self.monitor {
            Some(chosen) => match Monitor::for_connector(monitors, chosen.as_str()) {
                Some(index) => index,
                None => Monitor::first(monitors),
            },
            None => Monitor::first(monitors),
        }
    }
}

} // verus!
