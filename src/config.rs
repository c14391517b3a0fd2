//! Settings of the gallery: where the images are, how long each stays, which
//! formats are accepted and how images are spread over outputs.

use vstd::prelude::*;
use vstd::string::*;

verus! {

/// How the corpus is spread over the outputs.
#[derive(PartialEq, Eq, Structural, Clone, Copy, Debug)]
pub enum FitType {
    /// Greedy global pairing of each image with the output it fits best.
    BestFit,
    /// Images dealt to the outputs in turn.
    NextFile,
}

/// An image file format the gallery may accept.
#[derive(PartialEq, Eq, Structural, Clone, Copy, Debug)]
pub enum ImageKind {
    Jpeg,
    WebP,
    Png,
    Tiff,
}

/// The directory scanned when no configuration names one.
pub const DEFAULT_PATH: &'static str = "~/Pictures/wallpaper";

/// Seconds each image stays when no configuration says otherwise.
pub const DEFAULT_BG_DURATION_SECONDS: u64 = 15;

/// The longest display time whose milliseconds fit a readiness-wait timeout
/// (an `i32` of milliseconds).
pub const MAX_BG_DURATION_SECONDS: u64 = 2_147_483;

/// The settings read from one configuration file; absent keys are `None`.
pub struct ParsedConfig {
    pub path: Option<String>,
    pub bg_duration_seconds: Option<u64>,
    pub fit_type: Option<FitType>,
}

/// Why a configuration file could not be used.
#[derive(PartialEq, Eq, Structural, Clone, Copy, Debug)]
pub enum ReadConfigError {
    /// The file could not be opened (it is then skipped).
    OpenError,
    /// The file could not be read.
    ReadError,
    /// The file is not a valid configuration.
    ParseError,
}

pub struct Config {
    pub path: String,
    pub bg_duration_seconds: u64,
    pub authorized_formats: Vec<ImageKind>,
    pub fit_type: FitType,
}

impl ParsedConfig {
    /// A configuration that sets nothing.
    pub fn empty() -> (r: ParsedConfig)
        ensures
            r.path is None,
            r.bg_duration_seconds is None,
            r.fit_type is None,
    {
        ParsedConfig { path: None, bg_duration_seconds: None, fit_type: None }
    }
}

/// `s` with a leading `~` replaced by `home` and a slash; unchanged when it
/// has no leading `~` or there is no home directory.
pub open spec fn tilde_expanded(s: Seq<char>, home: Option<Seq<char>>) -> Seq<char> {
    if s.len() > 0 && s[0] == '~' && home is Some {
        home->0 + seq!['/'] + s.skip(1)
    } else {
        s
    }
}

/// Replaces a leading `~` of `s` by the home directory `home` followed by a
/// slash.
pub fn expand_tilde(s: String, home: Option<String>) -> (r: String)
    ensures
        r@ == tilde_expanded(
            s@,
            match home {
                Some(h) => Some(h@),
                None => None,
            },
        ),
{
    let len = s.as_str().unicode_len();
    if len == 0 {
        return s;
    }
    if s.as_str().get_char(0) != '~' {
        return s;
    }
    match home {
        None => s,
        Some(home) => {
            let slash = String::from_str("/");
            proof {
                reveal_strlit("/");
            }
            let rest = s.as_str().substring_char(1, len);
            let mut r = home;
            r.append(slash.as_str());
            r.append(rest);
            proof {
                assert(s@.skip(1) == s@.subrange(1, len as int));
            }
            r
        },
    }
}

impl Config {
    pub open spec fn wf(&self) -> bool {
        self.bg_duration_seconds <= MAX_BG_DURATION_SECONDS
    }

    /// The built-in settings: the default directory (with `~` expanded
    /// against `home`), the default duration, JPEG, WebP, PNG and TIFF,
    /// best-fit assignment.
    pub fn default(home: Option<String>) -> (r: Config)
        ensures
            r.path@ == tilde_expanded(
                DEFAULT_PATH@,
                match home {
                    Some(h) => Some(h@),
                    None => None,
                },
            ),
            r.bg_duration_seconds == DEFAULT_BG_DURATION_SECONDS,
            r.authorized_formats@ == seq![
                ImageKind::Jpeg,
                ImageKind::WebP,
                ImageKind::Png,
                ImageKind::Tiff,
            ],
            r.fit_type == FitType::BestFit,
            r.wf(),
    {
        let mut formats: Vec<ImageKind> = Vec::new();
        formats.push(ImageKind::Jpeg);
        formats.push(ImageKind::WebP);
        formats.push(ImageKind::Png);
        formats.push(ImageKind::Tiff);
        Config {
            path: expand_tilde(String::from_str(DEFAULT_PATH), home),
            bg_duration_seconds: DEFAULT_BG_DURATION_SECONDS,
            authorized_formats: formats,
            fit_type: FitType::BestFit,
        }
    }

    /// Applies the keys that `parsed_config` sets, expanding `~` in a path.
    pub fn from(config: &mut Config, parsed_config: ParsedConfig, home: Option<String>)
        ensures
            final(config).path@ == match parsed_config.path {
                Some(p) => tilde_expanded(
                    p@,
                    match home {
                        Some(h) => Some(h@),
                        None => None,
                    },
                ),
                None => old(config).path@,
            },
            final(config).bg_duration_seconds == match parsed_config.bg_duration_seconds {
                Some(d) => d,
                None => old(config).bg_duration_seconds,
            },
            final(config).fit_type == match parsed_config.fit_type {
                Some(f) => f,
                None => old(config).fit_type,
            },
            final(config).authorized_formats@ == old(config).authorized_formats@,
    {
        if let Some(path) = parsed_config.path {
            config.path = expand_tilde(path, home);
        }
        if let Some(bg_duration_seconds) = parsed_config.bg_duration_seconds {
            config.bg_duration_seconds = bg_duration_seconds;
        }
        if let Some(fit_type) = parsed_config.fit_type {
            config.fit_type = fit_type;
        }
    }

    /// Folds the outcome of reading one configuration file into `config`:
    /// its keys apply; a file that could not be opened is skipped; a file
    /// that could not be read or parsed is an error and changes nothing.
    pub fn apply(
        config: &mut Config,
        outcome: Result<ParsedConfig, ReadConfigError>,
        home: Option<String>,
    ) -> (r: Result<(), ReadConfigError>)
        ensures
            match outcome {
                Ok(_) => r is Ok,
                Err(ReadConfigError::OpenError) => r is Ok && *final(config) == *old(config),
                Err(e) => r == Err::<(), ReadConfigError>(e) && *final(config) == *old(config),
            },
            outcome is Ok ==> final(config).path@ == match outcome->Ok_0.path {
                Some(p) => tilde_expanded(
                    p@,
                    match home {
                        Some(h) => Some(h@),
                        None => None,
                    },
                ),
                None => old(config).path@,
            },
            outcome is Ok ==> final(config).bg_duration_seconds
                == match outcome->Ok_0.bg_duration_seconds {
                Some(d) => d,
                None => old(config).bg_duration_seconds,
            },
            outcome is Ok ==> final(config).fit_type == match outcome->Ok_0.fit_type {
                Some(f) => f,
                None => old(config).fit_type,
            },
            final(config).authorized_formats@ == old(config).authorized_formats@,
    {
        match outcome {
            Ok(parsed) => {
                Config::from(config, parsed, home);
                Ok(())
            },
            Err(ReadConfigError::OpenError) => Ok(()),
            Err(e) => Err(e),
        }
    }

    /// Whether files of `kind` are accepted.
    pub fn accepts(&self, kind: ImageKind) -> (r: bool)
        ensures
            r == self.authorized_formats@.contains(kind),
    {
        let n = self.authorized_formats.len();
        for i in 0..n
            invariant
                n == self.authorized_formats@.len(),
                forall|k: int| 0 <= k < i ==> self.authorized_formats@[k] != kind,
        {
            if self.authorized_formats[i] == kind {
                return true;
            }
        }
        false
    }

    /// The display time in milliseconds, when it is within
    /// `MAX_BG_DURATION_SECONDS`.
    pub fn interval_ms(&self) -> (r: Option<u64>)
        ensures
            r == if self.wf() {
                Some((self.bg_duration_seconds * 1000) as u64)
            } else {
                None::<u64>
            },
    {
        if self.bg_duration_seconds <= MAX_BG_DURATION_SECONDS {
            Some(self.bg_duration_seconds * 1000)
        } else {
            None
        }
    }
}

} // verus!
