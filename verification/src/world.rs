//! What a world is configured with and how its loading is followed.

use crate::model::InstanceId;
use vstd::prelude::*;

verus! {

/// What a world is created with.
#[derive(Debug, Clone, Copy)]
pub struct WorldConfig {
    pub enable_rendering: bool,
    pub enable_networking: bool,
    pub enable_physics: bool,
    pub enable_input: bool,
    pub target_fps: u32,
    pub viewport_width: u32,
    pub viewport_height: u32,
}

/// The stages of loading a world, in order.
#[derive(Debug, Clone, Copy, PartialEq, Eq, Structural)]
pub enum WorldLoadState {
    LoadingDataModel,
    LoadingDataModelProperties,
    LoadingMakeJoints,
    Finished,
}

/// Something that is told whenever loading has made progress.
pub trait LoadListener {
    fn update_world_load(&mut self);
}

/// A node that was read but whose properties are still to be read.
#[derive(Debug)]
pub struct WorldUndeserialized {
    pub instance: InstanceId,
    pub parent: Option<InstanceId>,
    pub xml_node: String,
}

/// The progress that loading reports on entering `state`, out of
/// `LOAD_PROGRESS_MAX`.
pub open spec fn progress_at(state: WorldLoadState) -> int {
    match state {
        WorldLoadState::LoadingDataModel => 50,
        WorldLoadState::LoadingDataModelProperties => 75,
        WorldLoadState::LoadingMakeJoints => 90,
        WorldLoadState::Finished => 100,
    }
}

/// The stage that follows `state`; the last stage follows itself.
pub open spec fn stage_after(state: WorldLoadState) -> WorldLoadState {
    match state {
        WorldLoadState::LoadingDataModel => WorldLoadState::LoadingDataModelProperties,
        WorldLoadState::LoadingDataModelProperties => WorldLoadState::LoadingMakeJoints,
        WorldLoadState::LoadingMakeJoints => WorldLoadState::Finished,
        WorldLoadState::Finished => WorldLoadState::Finished,
    }
}

/// The progress at which loading is complete.
pub const LOAD_PROGRESS_MAX: i32 = 100;

/// How far loading has come.
#[derive(Debug, Clone, Copy, PartialEq, Eq, Structural)]
pub struct LoadProgress {
    pub load_state: WorldLoadState,
    pub max_load_progress: i32,
    pub load_progress: i32,
}

impl LoadProgress {
    /// Loading has begun: the first stage, nothing done yet.
    pub fn begin() -> (progress: Self)
        ensures
            progress.load_state == WorldLoadState::LoadingDataModel,
            progress.max_load_progress == LOAD_PROGRESS_MAX,
            progress.load_progress == 0,
    {
        Self {
            load_state: WorldLoadState::LoadingDataModel,
            max_load_progress: LOAD_PROGRESS_MAX,
            load_progress: 0,
        }
    }

    /// The stage `state` is entered and its progress reported.
    pub fn enter(self, state: WorldLoadState) -> (progress: Self)
        ensures
            progress.load_state == state,
            progress.max_load_progress == self.max_load_progress,
            progress.load_progress == progress_at(state),
    {
        let load_progress: i32 = match state {
            WorldLoadState::LoadingDataModel => 50,
            WorldLoadState::LoadingDataModelProperties => 75,
            WorldLoadState::LoadingMakeJoints => 90,
            WorldLoadState::Finished => 100,
        };
        Self { load_state: state, max_load_progress: self.max_load_progress, load_progress }
    }

    /// The stage that follows the current one; the last stage follows itself.
    pub fn next_state(&self) -> (state: WorldLoadState)
        ensures
            state == stage_after(self.load_state),
    {
        match self.load_state {
            WorldLoadState::LoadingDataModel => WorldLoadState::LoadingDataModelProperties,
            WorldLoadState::LoadingDataModelProperties => WorldLoadState::LoadingMakeJoints,
            WorldLoadState::LoadingMakeJoints => WorldLoadState::Finished,
            WorldLoadState::Finished => WorldLoadState::Finished,
        }
    }

    pub fn is_finished(&self) -> (done: bool)
        ensures
            done == (self.load_state == WorldLoadState::Finished),
    {
        match self.load_state {
            WorldLoadState::Finished => true,
            _ => false,
        }
    }
}

/// The sum of two numbers that have one.
pub fn add(left: u64, right: u64) -> (sum: u64)
    requires
        left + right <= u64::MAX,
    ensures
        sum == left + right,
{
    left + right
}

} // verus!
