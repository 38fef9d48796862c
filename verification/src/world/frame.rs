use vstd::prelude::*;

verus! {

/// The frame of an advancement, which decides how it is drawn.
#[derive(Debug, Clone, Copy, PartialEq, Eq, Structural)]
pub enum AdvancementFrame {
    /// A regular task (square frame, green title).
    Task,
    /// A goal (rounded frame, green title).
    Goal,
    /// A challenge (spiked frame, purple title).
    Challenge,
}

impl Default for AdvancementFrame {
    fn default() -> (r: Self)
        ensures
            r == AdvancementFrame::Task,
    {
        AdvancementFrame::Task
    }
}

impl AdvancementFrame {
    /// The number that stands for a frame in packets.
    pub open spec fn ordinal_spec(self) -> i32 {
        match self {
            AdvancementFrame::Task => 0,
            AdvancementFrame::Goal => 1,
            AdvancementFrame::Challenge => 2,
        }
    }

    /// The frame's name in data files.
    pub open spec fn name_spec(self) -> Seq<char> {
        match self {
            AdvancementFrame::Task => "task"@,
            AdvancementFrame::Goal => "goal"@,
            AdvancementFrame::Challenge => "challenge"@,
        }
    }

    /// Returns the number used for this frame in packets.
    pub fn ordinal(self) -> (r: i32)
        ensures
            r == self.ordinal_spec(),
            self == AdvancementFrame::Task ==> r == 0,
            self == AdvancementFrame::Goal ==> r == 1,
            self == AdvancementFrame::Challenge ==> r == 2,
    {
        match self {
            AdvancementFrame::Task => 0,
            AdvancementFrame::Goal => 1,
            AdvancementFrame::Challenge => 2,
        }
    }

    /// Returns the frame whose number is `ordinal`, if there is one.
    pub fn from_ordinal(ordinal: i32) -> (r: Option<Self>)
        ensures
            match r {
                Some(f) => f.ordinal_spec() == ordinal,
                None => !(0 <= ordinal <= 2),
            },
            ordinal == 0 ==> r == Some(AdvancementFrame::Task),
            ordinal == 1 ==> r == Some(AdvancementFrame::Goal),
            ordinal == 2 ==> r == Some(AdvancementFrame::Challenge),
    {
        match ordinal {
            0 => Some(AdvancementFrame::Task),
            1 => Some(AdvancementFrame::Goal),
            2 => Some(AdvancementFrame::Challenge),
            _ => None,
        }
    }

    /// Returns the frame's name in data files.
    pub fn as_str(self) -> (r: &'static str)
        ensures
            r@ == self.name_spec(),
    {
        match self {
            AdvancementFrame::Task => "task",
            AdvancementFrame::Goal => "goal",
            AdvancementFrame::Challenge => "challenge",
        }
    }
}

/// The protocol numbers the frames: a task is 0, a goal 1 and a challenge 2.
pub proof fn lemma_frame_numbers()
    ensures
        AdvancementFrame::Task.ordinal_spec() == 0,
        AdvancementFrame::Goal.ordinal_spec() == 1,
        AdvancementFrame::Challenge.ordinal_spec() == 2,
{
}

/// A frame's number gives the frame back.
pub proof fn lemma_frame_ordinal_roundtrip(frame: AdvancementFrame)
    ensures
        0 <= frame.ordinal_spec() <= 2,
        forall|g: AdvancementFrame| g.ordinal_spec() == frame.ordinal_spec() ==> g == frame,
{
}

} // verus!
