//! Scanning for content: collecting everything worth collecting in a cross
//! around the robot.
use vstd::prelude::*;
use crate::robot::{CapitalistRobot, Mode, RobotModel};
use crate::world::Content;

verus! {

/// How far the scanning tool reaches from the robot.
pub const SCAN_CONTENT_RANGE: usize = 5;

/// What the robot asks the collecting tool for: every item of each listed
/// content (an amount of 0 means "all there is") within `range` of the robot.
pub struct CollectRequest {
    pub range: usize,
    pub targets: Vec<(Content, usize)>,
}

/// The contents the scan collects: rocks, fish, garbage and coins.
pub open spec fn scan_targets() -> Seq<(Content, usize)> {
    seq![(Content::Rock(0), 0usize), (Content::Fish(0), 0usize), (Content::Garbage(0), 0usize), (Content::Coin(0), 0usize)]
}

impl CapitalistRobot {
    /// Ends the scan: the robot goes back to searching, and the returned request
    /// tells the collecting tool what to collect.
    pub fn run_scan_content_mode(&mut self) -> (req: CollectRequest)
        requires
            old(self).wf(),
        ensures
            final(self).wf(),
            req.range == SCAN_CONTENT_RANGE,
            req.targets@ == scan_targets(),
            final(self)@ == (RobotModel { mode: Mode::SearchingContent, ..old(self)@ }),
    {
        let mut targets: Vec<(Content, usize)> = Vec::new();
        targets.push((Content::Rock(0), 0));
        targets.push((Content::Fish(0), 0));
        targets.push((Content::Garbage(0), 0));
        targets.push((Content::Coin(0), 0));
        assert(targets@ =~= scan_targets());
        self.mode = Mode::SearchingContent;
        CollectRequest { range: SCAN_CONTENT_RANGE, targets }
    }
}

} // verus!
