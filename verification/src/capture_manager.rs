//! Track the nodes whose sound is being captured for peak meters, and decide
//! when to start and stop capturing. The decisions are queued as commands for
//! the PipeWire monitor, which the caller sends.

use vstd::prelude::*;
use std::collections::HashSet;

use crate::media_class::{is_sink, is_sink_input, is_source, is_source_output, sink_class, sink_input_class, source_class, source_output_class};
use crate::object::ObjectId;
use crate::state::Node;

verus! {

broadcast use vstd::std_specs::hash::group_hash_axioms;

/// A command for the monitor.
#[derive(Debug, Clone, Copy, PartialEq, Eq, Structural)]
pub enum CaptureCommand {
    Start { object_id: ObjectId, object_serial: u64, capture_sink: bool },
    Stop { object_id: ObjectId },
}

pub struct CaptureManager {
    capturing: HashSet<u32>,
    capture_enabled: bool,
    pending: Vec<CaptureCommand>,
}

pub struct CaptureView {
    pub capturing: Set<u32>,
    pub capture_enabled: bool,
    pub pending: Seq<CaptureCommand>,
}

impl View for CaptureManager {
    type V = CaptureView;

    closed spec fn view(&self) -> CaptureView {
        CaptureView {
            capturing: self.capturing@,
            capture_enabled: self.capture_enabled,
            pending: self.pending@,
        }
    }
}

/// Whether the node's media class satisfies `p`.
pub open spec fn class_is(node: Node, p: spec_fn(Seq<char>) -> bool) -> bool {
    match node.props.media_class {
        Some(mc) => p(mc@),
        None => false,
    }
}

/// Sinks and sources are captured from their monitor ports.
pub open spec fn captures_sink(node: Node) -> bool {
    class_is(node, |mc: Seq<char>| sink_class(mc) || source_class(mc))
}

pub open spec fn started(c: CaptureView, node: Node) -> CaptureView {
    if !c.capture_enabled || node.props.object_serial is None {
        c
    } else {
        CaptureView {
            capturing: c.capturing.insert(node.id.0),
            pending: c.pending.push(
                CaptureCommand::Start {
                    object_id: node.id,
                    object_serial: node.props.object_serial->0,
                    capture_sink: captures_sink(node),
                },
            ),
            ..c
        }
    }
}

pub open spec fn stopped(c: CaptureView, node: Node) -> CaptureView {
    if !c.capture_enabled {
        c
    } else {
        CaptureView {
            capturing: c.capturing.remove(node.id.0),
            pending: c.pending.push(CaptureCommand::Stop { object_id: node.id }),
            ..c
        }
    }
}

pub open spec fn after_node(c: CaptureView, node: Node) -> CaptureView {
    if !class_is(
        node,
        |mc: Seq<char>| source_class(mc) || sink_input_class(mc) || source_output_class(mc),
    ) || node.props.object_serial is None || c.capturing.contains(node.id.0) {
        c
    } else {
        started(c, node)
    }
}

pub open spec fn after_link(c: CaptureView, node: Node) -> CaptureView {
    if !class_is(
        node,
        |mc: Seq<char>|
            sink_class(mc) || source_class(mc) || sink_input_class(mc) || source_output_class(mc),
    ) {
        c
    } else {
        started(c, node)
    }
}

pub open spec fn after_positions_changed(c: CaptureView, node: Node) -> CaptureView {
    if !c.capturing.contains(node.id.0) {
        c
    } else {
        started(c, node)
    }
}

fn class_matches(node: &Node, sink: bool, source: bool, sink_input: bool, source_output: bool) -> (r: bool)
    ensures
        r == class_is(
            *node,
            |mc: Seq<char>|
                (sink && sink_class(mc)) || (source && source_class(mc)) || (sink_input
                    && sink_input_class(mc)) || (source_output && source_output_class(mc)),
        ),
{
    match &node.props.media_class {
        Some(mc) => {
            let mc = mc.as_str();
            (sink && is_sink(mc)) || (source && is_source(mc)) || (sink_input && is_sink_input(mc))
                || (source_output && is_source_output(mc))
        },
        None => false,
    }
}

impl CaptureManager {
    pub fn new(capture_enabled: bool) -> (m: Self)
        ensures
            m@.capturing == Set::<u32>::empty(),
            m@.capture_enabled == capture_enabled,
            m@.pending == Seq::<CaptureCommand>::empty(),
    {
        CaptureManager { capturing: HashSet::new(), capture_enabled, pending: Vec::new() }
    }

    /// Call when a node's capture eligibility might have changed.
    pub fn on_node(&mut self, node: &Node)
        ensures
            final(self)@ == after_node(old(self)@, *node),
    {
        if !class_matches(node, false, true, true, true) {
            return;
        }
        if node.props.object_serial.is_none() {
            return;
        }
        if self.capturing.contains(&node.id.0) {
            return;
        }
        self.start_capture_command(node);
    }

    /// Call when a node gets a new input link.
    pub fn on_link(&mut self, node: &Node)
        ensures
            final(self)@ == after_link(old(self)@, *node),
    {
        if !class_matches(node, true, true, true, true) {
            return;
        }
        self.start_capture_command(node);
    }

    /// Call when a node's output positions have changed.
    pub fn on_positions_changed(&mut self, node: &Node)
        ensures
            final(self)@ == after_positions_changed(old(self)@, *node),
    {
        if !self.capturing.contains(&node.id.0) {
            return;
        }
        self.start_capture_command(node);
    }

    /// Call when a node has no more input links.
    pub fn on_removed(&mut self, node: &Node)
        ensures
            final(self)@ == stopped(old(self)@, *node),
    {
        self.stop_capture_command(node);
    }

    fn start_capture_command(&mut self, node: &Node)
        ensures
            final(self)@ == started(old(self)@, *node),
    {
        if !self.capture_enabled {
            return;
        }
        let object_serial = match node.props.object_serial {
            Some(serial) => serial,
            None => {
                return;
            },
        };
        let capture_sink = class_matches(node, true, true, false, false);
        self.capturing.insert(node.id.0);
        self.pending.push(
            CaptureCommand::Start { object_id: node.id, object_serial, capture_sink },
        );
        assert(final(self)@.capturing == started(old(self)@, *node).capturing);
    }

    fn stop_capture_command(&mut self, node: &Node)
        ensures
            final(self)@ == stopped(old(self)@, *node),
    {
        if !self.capture_enabled {
            return;
        }
        self.capturing.remove(&node.id.0);
        self.pending.push(CaptureCommand::Stop { object_id: node.id });
    }

    /// Hands over the queued commands, oldest first, and forgets them.
    pub fn take_commands(&mut self) -> (commands: Vec<CaptureCommand>)
        ensures
            commands@ == old(self)@.pending,
            final(self)@.pending == Seq::<CaptureCommand>::empty(),
            final(self)@.capturing == old(self)@.capturing,
            final(self)@.capture_enabled == old(self)@.capture_enabled,
    {
        let mut commands = Vec::new();
        std::mem::swap(&mut commands, &mut self.pending);
        commands
    }

    /// Whether the node is being captured.
    pub fn is_capturing(&self, object_id: ObjectId) -> (r: bool)
        ensures
            r == self@.capturing.contains(object_id.0),
    {
        self.capturing.contains(&object_id.0)
    }
}

impl Default for CaptureManager {
    fn default() -> (m: Self)
        ensures
            m@.capturing == Set::<u32>::empty(),
            !m@.capture_enabled,
            m@.pending == Seq::<CaptureCommand>::empty(),
    {
        CaptureManager::new(false)
    }
}

} // verus!
