//! Scene capabilities: authority over the shared scene, derived from trusted
//! settings at decision time. The wire can never grant one to itself.

use vstd::prelude::*;
use crate::config::AppConfig;
use crate::identity::IngressSource;

verus! {

/// One nameable unit of shared-scene authority.
#[derive(Clone, Copy, Debug, PartialEq, Eq, Structural)]
pub enum SceneCapability {
    /// Direct the avatar: change it, show or hide it, clear other agents'
    /// speech. Granted by `[trust.local] avatar_scene`.
    AvatarScene,
    /// Drive the ambient audio bed. Granted by `[audio] allow_scene_ambient`.
    SceneAmbient,
}

impl SceneCapability {
    /// Whether the settings grant this capability to `source`.
    pub open spec fn grants(self, source: IngressSource, config: AppConfig) -> bool {
        match source {
            IngressSource::Local(_) => match self {
                SceneCapability::AvatarScene => config.trust.local.avatar_scene,
                SceneCapability::SceneAmbient => config.audio.allow_scene_ambient,
            },
        }
    }

    /// Whether the settings grant this capability to `source`.
    pub fn granted_to(self, source: IngressSource, config: &AppConfig) -> (granted: bool)
        ensures
            granted == self.grants(source, *config),
    {
        match source {
            IngressSource::Local(_) => match self {
                SceneCapability::AvatarScene => config.trust.local.avatar_scene,
                SceneCapability::SceneAmbient => config.audio.allow_scene_ambient,
            },
        }
    }
}

/// What the settings grant: to direct the avatar by one, and to drive the
/// ambient bed by the other.
pub proof fn law_settings_grant_their_own(source: IngressSource, config: AppConfig)
    ensures
        SceneCapability::AvatarScene.grants(source, config) == config.trust.local.avatar_scene,
        SceneCapability::SceneAmbient.grants(source, config) == config.audio.allow_scene_ambient,
{
}

} // verus!
