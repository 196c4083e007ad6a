//! Configuration: resolution of the optional settings into a complete
//! configuration, home-directory expansion of paths, and validation against
//! what the filesystem reports about them.

use vstd::prelude::*;
use vstd::string::StringExecFns;

verus! {

/// Word that marks a memo to be ignored, when none is configured.
pub const DEFAULT_IGNORE_WORD: &'static str = "skip";

/// Tag given to every task, when no task options are configured.
pub const DEFAULT_TAG: &'static str = "voice_memo";

/// Where the speech model and the optional external scorer are.
#[derive(Debug, Default)]
pub struct DeepSpeechConfig {
    pub model: String,
    pub scorer: Option<String>,
}

/// Options for the tasks that are created.
#[derive(Debug)]
pub struct TaskWarriorConfig {
    pub ignore_word: Option<String>,
    pub extra_tags: Option<Vec<String>>,
}

/// The whole configuration.
#[derive(Debug, Default)]
pub struct Config {
    /// The watched directory.
    pub input_dir: String,
    pub deepspeech: DeepSpeechConfig,
    pub tw: Option<TaskWarriorConfig>,
}

/// Task options used when none are configured.
pub open spec fn is_default_tw(t: TaskWarriorConfig) -> bool {
    &&& t.ignore_word is Some
    &&& t.ignore_word->Some_0@ == DEFAULT_IGNORE_WORD@
    &&& t.extra_tags is Some
    &&& t.extra_tags->Some_0@.len() == 1
    &&& t.extra_tags->Some_0@[0]@ == DEFAULT_TAG@
}

impl Default for TaskWarriorConfig {
    fn default() -> (r: Self)
        ensures
            is_default_tw(r),
    {
        let mut tags: Vec<String> = Vec::new();
        tags.push(String::from_str(DEFAULT_TAG));
        TaskWarriorConfig { ignore_word: Some(String::from_str(DEFAULT_IGNORE_WORD)), extra_tags: Some(tags) }
    }
}

impl TaskWarriorConfig {
    /// Fills in each task option that is not configured with its default.
    pub fn sanitize(&mut self)
        ensures
            is_resolved_tw(*final(self)),
            old(self).ignore_word is Some ==> final(self).ignore_word == old(self).ignore_word,
            old(self).ignore_word is None ==> final(self).ignore_word->Some_0@ == DEFAULT_IGNORE_WORD@,
            old(self).extra_tags is Some ==> final(self).extra_tags == old(self).extra_tags,
            old(self).extra_tags is None ==> is_default_tags(final(self).extra_tags->Some_0@),
    {
        if self.ignore_word.is_none() {
            self.ignore_word = Some(String::from_str(DEFAULT_IGNORE_WORD));
        }
        if self.extra_tags.is_none() {
            let mut tags: Vec<String> = Vec::new();
            tags.push(String::from_str(DEFAULT_TAG));
            self.extra_tags = Some(tags);
        }
    }
}

/// Whether a list of tags is the default one: the single default tag.
pub open spec fn is_default_tags(t: Seq<String>) -> bool {
    t.len() == 1 && t[0]@ == DEFAULT_TAG@
}

/// Whether the task options have every setting filled in.
pub open spec fn is_resolved_tw(t: TaskWarriorConfig) -> bool {
    t.ignore_word is Some && t.extra_tags is Some
}

/// Whether a configuration has been resolved: task options present and complete.
pub open spec fn is_resolved(c: Config) -> bool {
    c.tw is Some && is_resolved_tw(c.tw->Some_0)
}

impl TaskWarriorConfig {
    /// The tags every created task carries: the configured extra tags, or the
    /// single default tag when none are configured.
    pub fn tags(&self) -> (r: Vec<String>)
        ensures
            match self.extra_tags {
                Some(t) => r@ == t@,
                None => is_default_tags(r@),
            },
    {
        let mut out: Vec<String> = Vec::new();
        match &self.extra_tags {
            None => {
                out.push(String::from_str(DEFAULT_TAG));
            },
            Some(tags) => {
                let mut i: usize = 0;
                while i < tags.len()
                    invariant
                        i <= tags@.len(),
                        out@ == tags@.take(i as int),
                    decreases tags@.len() - i,
                {
                    out.push(tags[i].clone());
                    i = i + 1;
                    assert(out@ =~= tags@.take(i as int));
                }
                assert(tags@.take(tags@.len() as int) =~= tags@);
            },
        }
        out
    }
}

/// Whether a path starts with the home-directory shorthand `~`.
pub open spec fn starts_with_tilde(s: Seq<char>) -> bool {
    s.len() > 0 && s[0] == '~'
}

/// Whether a path starts with `~` alone or `~/`: the forms that name the home
/// directory.
pub open spec fn names_home(s: Seq<char>) -> bool {
    starts_with_tilde(s) && (s.len() == 1 || s[1] == '/')
}

/// Whether `r` is `s` with its home-directory shorthand expanded: a path that
/// does not start with `~`, or that starts with `~name`, is unchanged; `~` or
/// `~/...` is either unchanged (no home directory known) or some home directory
/// followed by the text after the `~` (which one depends on the environment).
pub open spec fn home_expanded(s: Seq<char>, r: Seq<char>) -> bool {
    &&& (!starts_with_tilde(s) ==> r == s)
    &&& (starts_with_tilde(s) && s.len() > 1 && s[1] != '/' && s[1] != '\\' ==> r == s)
    &&& (names_home(s) ==> r == s || exists|home: Seq<char>| r == home + s.drop_first())
}

/// Relies on `shellexpand::tilde`: it expands a leading `~` or `~/` to the home
/// directory, when one is known, and returns every other path unchanged.
#[verifier::external_body]
fn expand_home(s: &str) -> (r: String)
    ensures
        home_expanded(s@, r@),
{
    shellexpand::tilde(s).into_owned()
}

/// What the filesystem reports about the configured paths.
#[derive(Debug, Clone, Copy, PartialEq, Eq, Structural)]
pub struct PathChecks {
    /// The input directory exists and is a directory.
    pub input_dir_is_dir: bool,
    /// The model exists and is a regular file.
    pub model_is_file: bool,
    /// The scorer, if one is configured, exists and is a regular file.
    pub scorer_is_file: bool,
}

/// Why a configuration was rejected; each carries the offending path.
#[derive(Debug, Clone, PartialEq, Eq)]
pub enum ConfigError {
    InvalidInputDir(String),
    InvalidModel(String),
    InvalidScorer(String),
}

impl ConfigError {
    /// A message naming the offending path.
    pub fn message(&self) -> (r: String)
        ensures
            r@ == match self {
                ConfigError::InvalidInputDir(p) => "Invalid input directory provided \""@ + p@ + "\"!"@,
                ConfigError::InvalidModel(p) => "Invalid deepspeech model provided \""@ + p@ + "\"!"@,
                ConfigError::InvalidScorer(p) => "Invalid deepspeech scorer provided \""@ + p@ + "\"!"@,
            },
    {
        let (mut text, path) = match self {
            ConfigError::InvalidInputDir(p) => (String::from_str("Invalid input directory provided \""), p),
            ConfigError::InvalidModel(p) => (String::from_str("Invalid deepspeech model provided \""), p),
            ConfigError::InvalidScorer(p) => (String::from_str("Invalid deepspeech scorer provided \""), p),
        };
        text.append(path.as_str());
        text.append("\"!");
        text
    }
}

/// The verdict on a configuration, given what the filesystem reports.
pub open spec fn verdict(c: Config, checks: PathChecks) -> Result<(), ConfigError> {
    if !checks.input_dir_is_dir {
        Err(ConfigError::InvalidInputDir(c.input_dir))
    } else if !checks.model_is_file {
        Err(ConfigError::InvalidModel(c.deepspeech.model))
    } else if c.deepspeech.scorer is Some && !checks.scorer_is_file {
        Err(ConfigError::InvalidScorer(c.deepspeech.scorer->Some_0))
    } else {
        Ok(())
    }
}

impl DeepSpeechConfig {
    /// Expands a leading `~` in the model and scorer paths.
    pub fn sanitize(&mut self)
        ensures
            home_expanded(old(self).model@, final(self).model@),
            final(self).scorer is Some <==> old(self).scorer is Some,
            old(self).scorer is Some ==> home_expanded(
                old(self).scorer->Some_0@,
                final(self).scorer->Some_0@,
            ),
    {
        self.model = expand_home(self.model.as_str());
        let scorer = match &self.scorer {
            None => None,
            Some(s) => Some(expand_home(s.as_str())),
        };
        self.scorer = scorer;
    }

    /// Checks the model and scorer paths against what the filesystem reports.
    pub fn verify(&self, checks: &PathChecks) -> (r: Result<(), ConfigError>)
        ensures
            r == (if !checks.model_is_file {
                Err(ConfigError::InvalidModel(self.model))
            } else if self.scorer is Some && !checks.scorer_is_file {
                Err(ConfigError::InvalidScorer(self.scorer->Some_0))
            } else {
                Ok(())
            }),
    {
        if !checks.model_is_file {
            return Err(ConfigError::InvalidModel(self.model.clone()));
        }
        match &self.scorer {
            Some(s) => {
                if !checks.scorer_is_file {
                    return Err(ConfigError::InvalidScorer(s.clone()));
                }
            },
            None => {},
        }
        Ok(())
    }
}

impl Config {
    /// Resolves the configuration: expands a leading `~` in every path and
    /// fills in the default task options where none are configured.
    pub fn sanitize(&mut self)
        ensures
            home_expanded(old(self).input_dir@, final(self).input_dir@),
            home_expanded(old(self).deepspeech.model@, final(self).deepspeech.model@),
            final(self).deepspeech.scorer is Some <==> old(self).deepspeech.scorer is Some,
            old(self).deepspeech.scorer is Some ==> home_expanded(
                old(self).deepspeech.scorer->Some_0@,
                final(self).deepspeech.scorer->Some_0@,
            ),
            is_resolved(*final(self)),
            old(self).tw is None ==> is_default_tw(final(self).tw->Some_0),
            old(self).tw is Some ==> {
                let (o, n) = (old(self).tw->Some_0, final(self).tw->Some_0);
                &&& (o.ignore_word is Some ==> n.ignore_word == o.ignore_word)
                &&& (o.ignore_word is None ==> n.ignore_word->Some_0@ == DEFAULT_IGNORE_WORD@)
                &&& (o.extra_tags is Some ==> n.extra_tags == o.extra_tags)
                &&& (o.extra_tags is None ==> is_default_tags(n.extra_tags->Some_0@))
            },
    {
        self.input_dir = expand_home(self.input_dir.as_str());
        self.deepspeech.sanitize();
        let tw = match self.tw.take() {
            None => TaskWarriorConfig::default(),
            Some(mut tw) => {
                tw.sanitize();
                tw
            },
        };
        self.tw = Some(tw);
    }

    /// Checks every configured path against what the filesystem reports.
    pub fn verify(&self, checks: &PathChecks) -> (r: Result<(), ConfigError>)
        ensures
            r == verdict(*self, *checks),
    {
        if !checks.input_dir_is_dir {
            return Err(ConfigError::InvalidInputDir(self.input_dir.clone()));
        }
        self.deepspeech.verify(checks)
    }
}

/// A configuration that passed validation.
pub struct ConfigBuilder {
    config: Config,
}

impl ConfigBuilder {
    /// The configuration held.
    pub closed spec fn held(&self) -> Config {
        self.config
    }

    /// Accepts a resolved configuration when every path checks out.
    pub fn new(config: Config, checks: &PathChecks) -> (r: Result<ConfigBuilder, ConfigError>)
        requires
            is_resolved(config),
        ensures
            match (r, verdict(config, *checks)) {
                (Ok(b), Ok(_)) => b.held() == config && is_resolved(b.held()),
                (Err(e), Err(d)) => e == d,
                _ => false,
            },
    {
        match config.verify(checks) {
            Ok(()) => Ok(ConfigBuilder { config }),
            Err(e) => Err(e),
        }
    }

    /// The validated configuration.
    pub fn get(self) -> (r: Config)
        ensures
            r == self.held(),
    {
        self.config
    }
}

} // verus!
