use vstd::prelude::*;

verus! {

/// The glyphs drawn when no configuration names others.
pub open spec fn default_charset() -> Seq<char> {
    "ｱｲｳｴｵｶｷｸｹｺｻｼｽｾｿ012345789@#$%&*"@
}

/// Rendering parameters, fully resolved before the render loop starts.
#[derive(Clone, Debug)]
pub struct Config {
    /// Target frames per second.
    pub fps: u32,
    /// Minimum horizontal spacing, in cells, between drop columns.
    pub column_width: u16,
    /// Drops spawned per column per frame, in thousandths (1000 is one drop per column).
    pub density_milli: u32,
    /// Glyphs that drop heads are drawn with.
    pub charset: String,
    /// Draw glyphs in green.
    pub green: bool,
}

impl Default for Config {
    /// The built-in defaults: 60 fps, column width 2, density 1.0, a fixed
    /// charset and the green tint.
    fn default() -> (r: Config)
        ensures
            r.fps == 60,
            r.column_width == 2,
            r.density_milli == 1000,
            r.charset@ == default_charset(),
            r.green,
    {
        proof { reveal_strlit("ｱｲｳｴｵｶｷｸｹｺｻｼｽｾｿ012345789@#$%&*"); }
        Config {
            fps: 60,
            column_width: 2,
            density_milli: 1000,
            charset: "ｱｲｳｴｵｶｷｸｹｺｻｼｽｾｿ012345789@#$%&*".to_owned(),
            green: true,
        }
    }
}

/// The first document among the sources, in order of precedence: the
/// explicit one, else the project-local one, else the user-level one; `None`
/// where no source yielded one, so that the defaults apply.
pub open spec fn first_found(
    explicit: Option<Config>,
    project: Option<Config>,
    user: Option<Config>,
) -> Option<Config> {
    if explicit is Some {
        explicit
    } else if project is Some {
        project
    } else {
        user
    }
}

/// Whether a value is one that the built-in defaults hold.
pub open spec fn is_default(c: Config) -> bool {
    &&& c.fps == 60
    &&& c.column_width == 2
    &&& c.density_milli == 1000
    &&& c.charset@ == default_charset()
    &&& c.green
}

impl Config {
    /// Resolves the configuration from its sources in order of precedence.
    /// Each argument is the document read and parsed from that source, or
    /// `None` where the source is missing, unreadable or malformed, so that a
    /// failing source falls through to the next one.
    pub fn load(explicit: Option<Config>, project: Option<Config>, user: Option<Config>) -> (r:
        Config)
        ensures
            match first_found(explicit, project, user) {
                Some(c) => r == c,
                None => is_default(r),
            },
    {
        match explicit {
            Some(c) => c,
            None => match project {
                Some(c) => c,
                None => match user {
                    Some(c) => c,
                    None => Config::default(),
                },
            },
        }
    }
}

/// An explicit document that parsed wins over every other source, whatever
/// the project-level and user-level sources hold.
pub proof fn lemma_explicit_wins(
    explicit: Config,
    project: Option<Config>,
    user: Option<Config>,
)
    ensures
        first_found(Some(explicit), project, user) == Some(explicit),
{
}

/// When the explicit document is malformed (so it yields nothing) and the
/// project-level document parsed, the project-level values are the result.
pub proof fn lemma_malformed_explicit_falls_to_project(
    project: Config,
    user: Option<Config>,
)
    ensures
        first_found(None, Some(project), user) == Some(project),
{
}

} // verus!
