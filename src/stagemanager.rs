use vstd::prelude::*;

use crate::scene::SceneResult;

verus! {

/// A scene that the stage manager asks to have made.
#[derive(Debug, Clone, PartialEq, Eq)]
pub enum SceneRequest {
    Level,
    Menu,
    KillScreen { text: String },
}

/// What follows a scene's update.
#[derive(Debug, Clone, PartialEq, Eq)]
pub enum StageStep {
    /// Play goes on with the current scene.
    Running,
    /// The last scene was popped: play is over.
    Finished,
    /// A new scene is to be made and pushed over the current one.
    Push(SceneRequest),
    /// A new scene is to be made and put in place of the current one.
    ReplaceCurrent(SceneRequest),
}

/// The scene being played, over the scenes to go back to, latest last.
pub struct StageManager<S> {
    pub current: S,
    pub stack: Vec<S>,
}

/// Neither the current scene nor the stack changed.
pub open spec fn unchanged<S>(a: &StageManager<S>, b: &StageManager<S>) -> bool {
    a.current == b.current && a.stack@ == b.stack@
}

impl<S> StageManager<S> {
    pub fn new(first: S) -> (r: StageManager<S>)
        ensures
            r.current == first,
            r.stack@.len() == 0,
    {
        StageManager { current: first, stack: Vec::new() }
    }

    /// Makes `scene` current, keeping the current one to go back to.
    pub fn push(&mut self, scene: S)
        ensures
            final(self).current == scene,
            final(self).stack@ == old(self).stack@.push(old(self).current),
    {
        let mut scene = scene;
        std::mem::swap(&mut self.current, &mut scene);
        self.stack.push(scene);
    }

    /// Puts `scene` in place of the current one.
    pub fn replace_current(&mut self, scene: S)
        ensures
            final(self).current == scene,
            final(self).stack@ == old(self).stack@,
    {
        self.current = scene;
    }

    /// Goes back to the scene under the current one; false when there is none,
    /// and then nothing changes.
    fn pop(&mut self) -> (r: bool)
        ensures
            r == (old(self).stack@.len() > 0),
            r ==> final(self).current == old(self).stack@.last() && final(self).stack@ == old(self).stack@.drop_last(),
            !r ==> final(self).current == old(self).current && final(self).stack@ == old(self).stack@,
    {
        match self.stack.pop() {
            Some(next) => {
                self.current = next;
                true
            },
            None => false,
        }
    }

    /// Carries out what a scene's update asked of the stack. Pops happen here;
    /// scenes to make are requested of the caller, which then pushes them or
    /// puts them in place of the current one.
    pub fn update(&mut self, result: SceneResult) -> (r: StageStep)
        ensures
            match result {
                SceneResult::Continue => r == StageStep::Running && unchanged(old(self), final(self)),
                SceneResult::Pop => {
                    &&& r == (if old(self).stack@.len() > 0 { StageStep::Running } else { StageStep::Finished })
                    &&& old(self).stack@.len() > 0 ==> final(self).current == old(self).stack@.last()
                        && final(self).stack@ == old(self).stack@.drop_last()
                    &&& old(self).stack@.len() == 0 ==> unchanged(old(self), final(self))
                },
                SceneResult::PopTwo => {
                    &&& r == (if old(self).stack@.len() > 1 { StageStep::Running } else { StageStep::Finished })
                    &&& old(self).stack@.len() > 1 ==> final(self).current == old(self).stack@[old(self).stack@.len() - 2]
                        && final(self).stack@ == old(self).stack@.subrange(0, old(self).stack@.len() - 2)
                    &&& old(self).stack@.len() <= 1 ==> final(self).current == old(self).current && final(self).stack@.len() == 0
                },
                SceneResult::PushLevel => r == StageStep::Push(SceneRequest::Level) && unchanged(old(self), final(self)),
                SceneResult::ReloadLevel => {
                    &&& r == StageStep::ReplaceCurrent(SceneRequest::Level)
                    &&& final(self).current == old(self).current
                    &&& final(self).stack@ == (if old(self).stack@.len() > 0 {
                        old(self).stack@.drop_last()
                    } else {
                        old(self).stack@
                    })
                },
                SceneResult::PushMenu => r == StageStep::Push(SceneRequest::Menu) && unchanged(old(self), final(self)),
                SceneResult::PushPause => r == StageStep::Push(SceneRequest::Menu) && unchanged(old(self), final(self)),
                SceneResult::PushKillScreen { text } => (r matches StageStep::Push(SceneRequest::KillScreen { text: t }) && t@
                    == text@) && unchanged(old(self), final(self)),
            },
    {
        match result {
            SceneResult::Continue => StageStep::Running,
            SceneResult::Pop => {
                if self.pop() {
                    StageStep::Running
                } else {
                    StageStep::Finished
                }
            },
            SceneResult::PopTwo => {
                let ghost before = self.stack@;
                self.stack.pop();
                if self.pop() {
                    assert(self.stack@ =~= before.subrange(0, before.len() - 2));
                    StageStep::Running
                } else {
                    StageStep::Finished
                }
            },
            SceneResult::PushLevel => StageStep::Push(SceneRequest::Level),
            SceneResult::ReloadLevel => {
                self.stack.pop();
                StageStep::ReplaceCurrent(SceneRequest::Level)
            },
            SceneResult::PushMenu => StageStep::Push(SceneRequest::Menu),
            SceneResult::PushPause => StageStep::Push(SceneRequest::Menu),
            SceneResult::PushKillScreen { text } => StageStep::Push(SceneRequest::KillScreen { text }),
        }
    }
}

} // verus!
