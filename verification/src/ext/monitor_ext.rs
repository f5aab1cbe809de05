//! Look-up of monitors by their connector.

use vstd::prelude::*;

verus! {

/// A monitor of the display, by the connector it hangs on, such as `DP-1`;
/// `None` where the display does not tell.
#[derive(Clone, Debug, PartialEq, Eq)]
pub struct Monitor {
    pub connector: Option<String>,
}

/// The connector of a monitor.
pub open spec fn connector_view(monitor: Monitor) -> Option<Seq<char>> {
    match monitor.connector {
        Some(connector) => Some(connector@),
        None => None,
    }
}

/// The connectors of monitors.
pub open spec fn connector_views(monitors: Seq<Monitor>) -> Seq<Option<Seq<char>>> {
    monitors.map_values(|monitor: Monitor| connector_view(monitor))
}

/// The place of the first monitor on this connector; the number of
/// monitors where none hangs on it.
pub open spec fn connector_position(connectors: Seq<Option<Seq<char>>>, connector: Seq<char>) -> int
    decreases connectors.len(),
{
    if connectors.len() == 0 || connectors[0] == Some(connector) {
        0
    } else {
        1 + connector_position(connectors.skip(1), connector)
    }
}

/// The position of a connector lies within the monitors or right behind
/// them; no monitor before it hangs on the connector, and the one at it
/// does.
pub proof fn lemma_connector_position(connectors: Seq<Option<Seq<char>>>, connector: Seq<char>)
    ensures
        0 <= connector_position(connectors, connector) <= connectors.len(),
        forall|k: int|
            0 <= k < connector_position(connectors, connector) ==> #[trigger] connectors[k]
                != Some(connector),
        connector_position(connectors, connector) < connectors.len()
            ==> connectors[connector_position(connectors, connector)] == Some(connector),
    decreases connectors.len(),
{
    if connectors.len() > 0 && connectors[0] != Some(connector) {
        let rest = connectors.skip(1);
        lemma_connector_position(rest, connector);
        assert forall|k: int| 0 <= k < connector_position(connectors, connector) implies
            #[trigger] connectors[k] != Some(connector) by {
            if k > 0 {
                assert(rest[k - 1] != Some(connector));
            }
        }
        if connector_position(connectors, connector) < connectors.len() {
            assert(rest[connector_position(rest, connector)] == connectors[connector_position(
                connectors,
                connector,
            )]);
        }
    }
}

/// What the bar asks of the monitors of a display.
pub trait MonitorExt: Sized {
    /// The place of the first monitor that hangs on this connector, if one
    /// does.
    fn for_connector(monitors: &Vec<Self>, connector: &str) -> Option<usize>;

    /// The place of the first monitor of a display that has one.
    fn first(monitors: &Vec<Self>) -> (index: usize)
        requires
            monitors@.len() > 0,
        ensures
            index == 0,
    ;
}

impl MonitorExt for Monitor {
    /// The place of the first monitor that hangs on this connector, if one
    /// does.
    fn for_connector(monitors: &Vec<Monitor>, connector: &str) -> (found: Option<usize>)
        ensures
            match found {
                Some(index) => index < monitors@.len() && index == connector_position(
                    connector_views(monitors@),
                    connector@,
                ),
                None => connector_position(connector_views(monitors@), connector@)
                    == monitors@.len(),
            },
    {
        let wanted: String = connector.to_owned();
        let ghost all = connector_views(monitors@);
        let mut index: usize = 0;
        assert(all.skip(0) =~= all);
        while index < monitors.len()
            invariant
                index <= monitors.len(),
                wanted@ == connector@,
                all == connector_views(monitors@),
                connector_position(all, connector@) == index + connector_position(
                    all.skip(index as int),
                    connector@,
                ),
            decreases monitors.len() - index,
        {
            let here: bool = match &monitors[index].connector {
                Some(name) => *name == wanted,
                None => false,
            };
            assert(here == (all[index as int] == Some(connector@)));
            if here {
                return Some(index);
            }
            assert(all.skip(index as int).skip(1) =~= all.skip(index as int + 1));
            index = index + 1;
        }
        None
    }

    /// The place of the first monitor.
    fn first(monitors: &Vec<Monitor>) -> (index: usize) {
        0
    }
}

} // verus!
