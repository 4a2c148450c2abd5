//! What the state of a surface asks for, and when a lost one is tried again.
use vstd::prelude::*;

verus! {

/// Errors while acquiring a usable GPU/device/surface, with the reason that the
/// GPU gave.
#[derive(Debug)]
pub enum InitError {
    Surface(String),
    Adapter(String),
    Device(String),
    UnsupportedSurface,
}

impl InitError {
    /// The sentence for the terminal.
    pub open spec fn sentence(self) -> Seq<char> {
        match self {
            InitError::Surface(reason) => "could not create Neta GPU surface: "@ + reason@,
            InitError::Adapter(reason) => "could not select Neta GPU adapter: "@ + reason@,
            InitError::Device(reason) => "could not create Neta GPU device: "@ + reason@,
            InitError::UnsupportedSurface => "selected GPU cannot present to this surface"@,
        }
    }

    /// The sentence for the terminal.
    pub fn message(&self) -> (message: String)
        ensures
            message@ == self.sentence(),
    {
        match self {
            InitError::Surface(reason) => String::from_str(
                "could not create Neta GPU surface: ",
            ).concat(reason.as_str()),
            InitError::Adapter(reason) => String::from_str(
                "could not select Neta GPU adapter: ",
            ).concat(reason.as_str()),
            InitError::Device(reason) => String::from_str(
                "could not create Neta GPU device: ",
            ).concat(reason.as_str()),
            InitError::UnsupportedSurface => String::from_str(
                "selected GPU cannot present to this surface",
            ),
        }
    }
}

/// What a surface draw did. Visual frames are disposable: a skip is a normal
/// frame-pacing outcome, never an audio error.
#[derive(Clone, Copy, Debug, PartialEq, Eq, Structural)]
pub enum FrameResult {
    Presented,
    PresentedAndReconfigured,
    Skipped,
    Reconfigured,
    SurfaceLost,
    ValidationError,
}

/// What the surface answers when it is asked for the next frame.
#[derive(Clone, Copy, Debug, PartialEq, Eq, Structural)]
pub enum SurfaceState {
    Success,
    Suboptimal,
    Timeout,
    Occluded,
    Outdated,
    Lost,
    Validation,
}

impl SurfaceState {
    /// What the caller is told.
    pub open spec fn outcome(self) -> FrameResult {
        match self {
            SurfaceState::Success => FrameResult::Presented,
            SurfaceState::Suboptimal => FrameResult::PresentedAndReconfigured,
            SurfaceState::Timeout => FrameResult::Skipped,
            SurfaceState::Occluded => FrameResult::Skipped,
            SurfaceState::Outdated => FrameResult::Reconfigured,
            SurfaceState::Lost => FrameResult::SurfaceLost,
            SurfaceState::Validation => FrameResult::ValidationError,
        }
    }

    /// Whether there is a frame to draw into.
    pub open spec fn has_frame(self) -> bool {
        self == SurfaceState::Success || self == SurfaceState::Suboptimal
    }

    /// Whether the surface has to be configured anew.
    pub open spec fn is_stale(self) -> bool {
        self == SurfaceState::Suboptimal || self == SurfaceState::Outdated
    }

    /// The caller is told of a picture exactly where there was a frame to draw into, and of
    /// another configuration exactly where one was made. Only a surface that is lost or
    /// fails its checks asks for another renderer.
    pub proof fn callers_are_told_what_was_done(self)
        ensures
            self.has_frame() <==> self.outcome() == FrameResult::Presented || self.outcome()
                == FrameResult::PresentedAndReconfigured,
            self.is_stale() <==> self.outcome() == FrameResult::Reconfigured || self.outcome()
                == FrameResult::PresentedAndReconfigured,
            self.outcome().is_fatal() <==> self == SurfaceState::Lost || self
                == SurfaceState::Validation,
            self.outcome() == FrameResult::Skipped <==> self == SurfaceState::Timeout || self
                == SurfaceState::Occluded,
            self.outcome() == FrameResult::SurfaceLost <==> self == SurfaceState::Lost,
    {
    }

    /// Whether there is a frame to draw into.
    pub fn draws(self) -> (draws: bool)
        ensures
            draws == self.has_frame(),
            draws == (self == SurfaceState::Success || self == SurfaceState::Suboptimal),
    {
        match self {
            SurfaceState::Success => true,
            SurfaceState::Suboptimal => true,
            _ => false,
        }
    }

    /// Whether the surface has to be configured anew, after drawing where there
    /// is a frame.
    pub fn reconfigures(self) -> (reconfigures: bool)
        ensures
            reconfigures == self.is_stale(),
            reconfigures == (self == SurfaceState::Suboptimal || self == SurfaceState::Outdated),
    {
        match self {
            SurfaceState::Suboptimal => true,
            SurfaceState::Outdated => true,
            _ => false,
        }
    }

    /// What the caller is told.
    pub fn result(self) -> (result: FrameResult)
        ensures
            result == self.outcome(),
            result == (match self {
                SurfaceState::Success => FrameResult::Presented,
                SurfaceState::Suboptimal => FrameResult::PresentedAndReconfigured,
                SurfaceState::Timeout => FrameResult::Skipped,
                SurfaceState::Occluded => FrameResult::Skipped,
                SurfaceState::Outdated => FrameResult::Reconfigured,
                SurfaceState::Lost => FrameResult::SurfaceLost,
                SurfaceState::Validation => FrameResult::ValidationError,
            }),
    {
        match self {
            SurfaceState::Success => FrameResult::Presented,
            SurfaceState::Suboptimal => FrameResult::PresentedAndReconfigured,
            SurfaceState::Timeout => FrameResult::Skipped,
            SurfaceState::Occluded => FrameResult::Skipped,
            SurfaceState::Outdated => FrameResult::Reconfigured,
            SurfaceState::Lost => FrameResult::SurfaceLost,
            SurfaceState::Validation => FrameResult::ValidationError,
        }
    }
}

impl FrameResult {
    /// Whether the renderer has to be made anew.
    pub open spec fn is_fatal(self) -> bool {
        self == FrameResult::SurfaceLost || self == FrameResult::ValidationError
    }

    /// Whether the renderer has to be made anew.
    pub fn needs_recovery(self) -> (needed: bool)
        ensures
            needed == self.is_fatal(),
    {
        match self {
            FrameResult::SurfaceLost => true,
            FrameResult::ValidationError => true,
            _ => false,
        }
    }
}

/// The size that a surface takes on, if it takes on a new one: a window without
/// area keeps its surface as it is.
pub fn surface_size(width: u32, height: u32) -> (size: Option<(u32, u32)>)
    ensures
        size == (if width == 0 || height == 0 {
            None
        } else {
            Some((width, height))
        }),
{
    if width == 0 || height == 0 {
        None
    } else {
        Some((width, height))
    }
}

/// The size of a first surface: at least one pixel each way.
pub fn first_size(width: u32, height: u32) -> (size: (u32, u32))
    ensures
        size.0 == (if width == 0 {
            1
        } else {
            width
        }),
        size.1 == (if height == 0 {
            1
        } else {
            height
        }),
{
    (
        if width == 0 {
            1
        } else {
            width
        },
        if height == 0 {
            1
        } else {
            height
        },
    )
}

} // verus!
