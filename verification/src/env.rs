//! Markers that an environment entered through `yx-env` exports.
use vstd::prelude::*;
use crate::config::opt_view;
use crate::text::string_is;

verus! {

/// Version of the protocol between the launcher and the executor.
pub const YX_PROTOCOL: u32 = 1;

/// What the environment says of the `yx-env` layer the process runs in.
#[derive(Debug, Clone)]
pub struct EnvState {
    pub inside: bool,
    pub profile: Option<String>,
    pub version: Option<String>,
    pub backend: Option<String>,
    pub layer: Option<String>,
}

impl EnvState {
    /// The state given the values of `YXENV`, `YXENV_PROFILE`,
    /// `YXENV_VERSION`, `YXENV_BACKEND` and `YX_LAYER` (`None` where unset
    /// or not Unicode): inside exactly when `YXENV` is `1`.
    pub fn from_vars(
        yxenv: Option<String>,
        profile: Option<String>,
        version: Option<String>,
        backend: Option<String>,
        layer: Option<String>,
    ) -> (s: Self)
        ensures
            s.inside == (opt_view(yxenv) == Some("1"@)),
            s.profile == profile,
            s.version == version,
            s.backend == backend,
            s.layer == layer,
    {
        let inside = match &yxenv {
            Some(v) => string_is(v, "1"),
            None => false,
        };
        EnvState { inside, profile, version, backend, layer }
    }
}

} // verus!
