//! The count of physics joints by kind.

use vstd::prelude::*;

verus! {

/// How many joints of each kind there are.
pub struct JointsService {
    /// Ball joints: free rotation round a point.
    pub ball_joints_count: usize,
    /// Fixed joints.
    pub fixed_joints_count: usize,
    /// Prismatic joints: sliding along an axis.
    pub prismatic_joints_count: usize,
    /// Revolute joints: hinges.
    pub revolute_joints_count: usize,
}

impl JointsService {
    /// The number of joints of all kinds.
    pub open spec fn total(&self) -> int {
        self.ball_joints_count + self.fixed_joints_count + self.prismatic_joints_count
            + self.revolute_joints_count
    }

    pub fn new() -> (service: Self)
        ensures
            service.ball_joints_count == 0,
            service.fixed_joints_count == 0,
            service.prismatic_joints_count == 0,
            service.revolute_joints_count == 0,
    {
        Self {
            ball_joints_count: 0,
            fixed_joints_count: 0,
            prismatic_joints_count: 0,
            revolute_joints_count: 0,
        }
    }

    pub fn add_ball_joint(&mut self)
        requires
            old(self).ball_joints_count < usize::MAX,
        ensures
            *final(self) == (JointsService {
                ball_joints_count: (old(self).ball_joints_count + 1) as usize,
                ..*old(self)
            }),
    {
        self.ball_joints_count += 1;
    }

    pub fn add_fixed_joint(&mut self)
        requires
            old(self).fixed_joints_count < usize::MAX,
        ensures
            *final(self) == (JointsService {
                fixed_joints_count: (old(self).fixed_joints_count + 1) as usize,
                ..*old(self)
            }),
    {
        self.fixed_joints_count += 1;
    }

    pub fn add_prismatic_joint(&mut self)
        requires
            old(self).prismatic_joints_count < usize::MAX,
        ensures
            *final(self) == (JointsService {
                prismatic_joints_count: (old(self).prismatic_joints_count + 1) as usize,
                ..*old(self)
            }),
    {
        self.prismatic_joints_count += 1;
    }

    pub fn add_revolute_joint(&mut self)
        requires
            old(self).revolute_joints_count < usize::MAX,
        ensures
            *final(self) == (JointsService {
                revolute_joints_count: (old(self).revolute_joints_count + 1) as usize,
                ..*old(self)
            }),
    {
        self.revolute_joints_count += 1;
    }

    /// Forgets every joint.
    pub fn clear(&mut self)
        ensures
            final(self).ball_joints_count == 0,
            final(self).fixed_joints_count == 0,
            final(self).prismatic_joints_count == 0,
            final(self).revolute_joints_count == 0,
    {
        self.ball_joints_count = 0;
        self.fixed_joints_count = 0;
        self.prismatic_joints_count = 0;
        self.revolute_joints_count = 0;
    }

    /// The number of joints of all kinds.
    pub fn joint_count(&self) -> (count: usize)
        requires
            self.total() <= usize::MAX,
        ensures
            count == self.total(),
    {
        self.ball_joints_count + self.fixed_joints_count + self.prismatic_joints_count
            + self.revolute_joints_count
    }
}

impl Default for JointsService {
    fn default() -> (service: Self)
        ensures
            service.total() == 0,
    {
        Self::new()
    }
}

} // verus!
