use vstd::prelude::*;

verus! {

/// What a scene asks of the scene stack after an update.
#[derive(Debug, Clone, PartialEq, Eq)]
pub enum SceneResult {
    Continue,
    Pop,
    PopTwo,
    PushMenu,
    PushLevel,
    ReloadLevel,
    PushKillScreen { text: String },
    PushPause,
}

} // verus!
