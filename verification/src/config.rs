//! Run configuration: the resolved options a run consumes, optional
//! command-line overrides, and configuration errors (which are fatal to the
//! whole run).

use vstd::prelude::*;
use vstd::string::StrSliceExecFns;
use vstd::string::StringExecFns;

verus! {

/// A fatal configuration error: conflicting options.  The run aborts before
/// any case executes.
#[derive(Debug)]
pub struct ConfigError {
    message: String,
}

impl ConfigError {
    pub fn new(message: String) -> (r: Self)
        ensures
            r.spec_message() == message@,
    {
        Self { message }
    }

    pub closed spec fn spec_message(&self) -> Seq<char> {
        self.message@
    }

    pub fn message(&self) -> (r: &str)
        ensures
            r@ == self.spec_message(),
    {
        self.message.as_str()
    }

    /// The full error line as it is reported.
    pub fn to_display_string(&self) -> (r: String)
        ensures
            r@ == "error during config parsing: "@ + self.spec_message(),
    {
        let mut s = String::from_str("error during config parsing: ");
        s.append(self.message.as_str());
        s
    }
}

/// Options resolved from the command line, before they are merged over the
/// runner's own properties.
pub struct CliConfig {
    pub disallow_focus: bool,
    pub allow_focus: bool,
    pub disallow_skip: bool,
    pub allow_skip: bool,
    pub mute_keyword: bool,
    pub ignore_keywords: bool,
    pub mute_filters: bool,
    pub run_rust_tests: bool,
    pub run_rust_benchmarks: bool,
    pub only_scene_path: bool,
    pub keyword: String,
    pub filters: Vec<String>,
    pub quiet_run: bool,
}

/// No two mutually exclusive command-line options are both set.
pub open spec fn spec_cli_valid(c: CliConfig) -> bool {
    &&& !(c.allow_focus && c.disallow_focus)
    &&& !(c.allow_skip && c.disallow_skip)
    &&& !(c.mute_keyword && c.keyword@.len() > 0)
    &&& !(c.mute_filters && c.filters@.len() > 0)
}

impl CliConfig {
    /// Rejects any leftover argument that no option consumed.
    pub fn check_unrecognized_args(unrecognized_args: &Vec<String>) -> (r: Result<
        (),
        ConfigError,
    >)
        ensures
            r is Ok <==> unrecognized_args@.len() == 0,
    {
        if unrecognized_args.len() == 0 {
            return Ok(());
        }
        let mut message = String::from_str("unrecognized args provided:");
        let mut i: usize = 0;
        while i < unrecognized_args.len()
            decreases unrecognized_args@.len() - i,
        {
            message.append(" ");
            message.append(unrecognized_args[i].as_str());
            i += 1;
        }
        Err(ConfigError::new(message))
    }

    /// Rejects a pair of mutually exclusive options that are both set.
    pub fn check_mutually_exclusive_args(
        arg_1_val: bool,
        arg_2_val: bool,
        arg_1: &str,
        arg_2: &str,
    ) -> (r: Result<(), ConfigError>)
        ensures
            r is Ok <==> !(arg_1_val && arg_2_val),
    {
        if arg_1_val && arg_2_val {
            let mut message = String::from_str("command line arguments ");
            message.append(arg_1);
            message.append(" and ");
            message.append(arg_2);
            message.append(" are mutually exclusive");
            Err(ConfigError::new(message))
        } else {
            Ok(())
        }
    }

    /// Checks every mutual-exclusion rule of [`spec_cli_valid`].
    pub fn validate(&self) -> (r: Result<(), ConfigError>)
        ensures
            r is Ok <==> spec_cli_valid(*self),
    {
        Self::check_mutually_exclusive_args(
            self.allow_focus,
            self.disallow_focus,
            "--allow-focus",
            "--disallow-focus",
        )?;
        Self::check_mutually_exclusive_args(
            self.allow_skip,
            self.disallow_skip,
            "--allow-skip",
            "--disallow-skip",
        )?;
        Self::check_mutually_exclusive_args(
            self.mute_keyword,
            self.keyword.as_str().unicode_len() > 0,
            "--mute-keyword",
            "--keyword",
        )?;
        Self::check_mutually_exclusive_args(
            self.mute_filters,
            self.filters.len() > 0,
            "--mute-filters",
            "--filters",
        )?;
        Ok(())
    }
}

/// The resolved configuration a run consumes.
pub struct RunnerConfig {
    pub disallow_focus: bool,
    pub disallow_skip: bool,
    pub run_rust_tests: bool,
    pub run_rust_benchmarks: bool,
    pub keyword: String,
    pub ignore_keywords: bool,
    pub only_scene_path: bool,
    pub scene_path: String,
    pub filters: Vec<String>,
    pub quiet_run: bool,
}

impl RunnerConfig {
    pub fn disallow_focus(&self) -> (r: bool)
        ensures
            r == self.disallow_focus,
    {
        self.disallow_focus
    }

    pub fn disallow_skip(&self) -> (r: bool)
        ensures
            r == self.disallow_skip,
    {
        self.disallow_skip
    }

    pub fn keyword(&self) -> (r: &String)
        ensures
            r@ == self.keyword@,
    {
        &self.keyword
    }

    pub fn ignore_keywords(&self) -> (r: bool)
        ensures
            r == self.ignore_keywords,
    {
        self.ignore_keywords
    }

    pub fn filters(&self) -> (r: &Vec<String>)
        ensures
            r@ == self.filters@,
    {
        &self.filters
    }

    pub fn run_rust_tests(&self) -> (r: bool)
        ensures
            r == self.run_rust_tests,
    {
        self.run_rust_tests
    }

    pub fn run_rust_benchmarks(&self) -> (r: bool)
        ensures
            r == self.run_rust_benchmarks,
    {
        self.run_rust_benchmarks
    }

    pub fn only_scene_path(&self) -> (r: bool)
        ensures
            r == self.only_scene_path,
    {
        self.only_scene_path
    }

    pub fn scene_path(&self) -> (r: &String)
        ensures
            r@ == self.scene_path@,
    {
        &self.scene_path
    }

    pub fn is_quiet(&self) -> (r: bool)
        ensures
            r == self.quiet_run,
    {
        self.quiet_run
    }

    /// Resolves the configuration from the runner's own properties and the
    /// optional command-line overrides.  Conflicting command-line options
    /// are a fatal configuration error.
    #[allow(clippy::too_many_arguments)]
    pub fn new(
        disallow_focus: bool,
        disallow_skip: bool,
        run_rust_tests: bool,
        run_rust_benchmarks: bool,
        keyword: String,
        ignore_keywords: bool,
        only_scene_path: bool,
        scene_path: String,
        filters: Vec<String>,
        quiet_run: bool,
        cmdline: Option<CliConfig>,
    ) -> (r: Result<Self, ConfigError>)
        ensures
            r is Ok <==> (match cmdline {
                Some(c) => spec_cli_valid(c),
                None => true,
            }),
            cmdline is None && r is Ok ==> {
                let out = r->Ok_0;
                &&& out.disallow_focus == disallow_focus
                &&& out.disallow_skip == disallow_skip
                &&& out.run_rust_tests == run_rust_tests
                &&& out.run_rust_benchmarks == run_rust_benchmarks
                &&& out.keyword@ == keyword@
                &&& out.ignore_keywords == ignore_keywords
                &&& out.only_scene_path == only_scene_path
                &&& out.scene_path@ == scene_path@
                &&& out.filters@ == filters@
                &&& out.quiet_run == quiet_run
            },
            cmdline is Some && r is Ok ==> {
                let c = cmdline->0;
                let out = r->Ok_0;
                &&& out.run_rust_tests == (if c.run_rust_tests || c.run_rust_benchmarks {
                    c.run_rust_tests
                } else {
                    run_rust_tests
                })
                &&& out.run_rust_benchmarks == (if c.run_rust_tests || c.run_rust_benchmarks {
                    c.run_rust_benchmarks
                } else {
                    run_rust_benchmarks
                })
                &&& out.disallow_focus == (if c.disallow_focus {
                    true
                } else if c.allow_focus {
                    false
                } else {
                    disallow_focus
                })
                &&& out.disallow_skip == (if c.disallow_skip {
                    true
                } else if c.allow_skip {
                    false
                } else {
                    disallow_skip
                })
                &&& out.filters@ == (if c.filters@.len() > 0 {
                    c.filters@
                } else if c.mute_filters {
                    Seq::<String>::empty()
                } else {
                    filters@
                })
                &&& out.keyword@ == (if c.keyword@.len() > 0 {
                    c.keyword@
                } else if c.mute_keyword {
                    Seq::<char>::empty()
                } else {
                    keyword@
                })
                &&& out.ignore_keywords == (ignore_keywords || c.ignore_keywords)
                &&& out.only_scene_path == (only_scene_path || c.only_scene_path)
                &&& out.quiet_run == (quiet_run || c.quiet_run)
                &&& out.scene_path@ == scene_path@
            },
    {
        let mut instance = Self {
            disallow_focus,
            disallow_skip,
            run_rust_tests,
            run_rust_benchmarks,
            ignore_keywords,
            keyword,
            only_scene_path,
            scene_path,
            filters,
            quiet_run,
        };

        let cmdline = match cmdline {
            None => {
                return Ok(instance);
            },
            Some(c) => c,
        };

        cmdline.validate()?;

        if cmdline.run_rust_tests || cmdline.run_rust_benchmarks {
            instance.run_rust_tests = cmdline.run_rust_tests;
            instance.run_rust_benchmarks = cmdline.run_rust_benchmarks;
        }
        if cmdline.allow_focus {
            instance.disallow_focus = false;
        }
        if cmdline.disallow_focus {
            instance.disallow_focus = true;
        }
        if cmdline.allow_skip {
            instance.disallow_skip = false;
        }
        if cmdline.disallow_skip {
            instance.disallow_skip = true;
        }
        if cmdline.mute_filters {
            instance.filters = Vec::new();
        }
        if cmdline.filters.len() > 0 {
            instance.filters = cmdline.filters;
        }
        if cmdline.mute_keyword {
            instance.keyword = String::new();
        }
        if cmdline.ignore_keywords {
            instance.ignore_keywords = true;
        }
        if cmdline.keyword.as_str().unicode_len() > 0 {
            instance.keyword = cmdline.keyword;
        }
        if cmdline.only_scene_path {
            instance.only_scene_path = true;
        }
        if cmdline.quiet_run {
            instance.quiet_run = true;
        }

        Ok(instance)
    }
}

/// The run's environment, as reported in the opening summary.
pub struct RunnerInfo {
    pub mode: &'static str,
    pub rust_build: &'static str,
    pub godot_build: &'static str,
    pub additional_message: Vec<String>,
}

/// The conditional remarks [`RunnerInfo::gather`] collects about a
/// configuration, in order.
pub open spec fn spec_additional_messages(config: RunnerConfig) -> Seq<Seq<char>> {
    (if config.keyword@.len() > 0 {
        seq!["using KEYWORD: '"@ + config.keyword@ + "'"@]
    } else {
        Seq::empty()
    }) + (if config.disallow_focus {
        seq!["disallowing focused"@]
    } else {
        Seq::empty()
    }) + (if config.disallow_skip {
        seq!["disallowing skipping"@]
    } else {
        Seq::empty()
    }) + (if config.ignore_keywords {
        seq!["ignoring keywords"@]
    } else {
        Seq::empty()
    }) + (if config.only_scene_path {
        seq!["scene path specific"@]
    } else {
        Seq::empty()
    })
}

impl RunnerInfo {
    /// Collects what the opening summary says of the run: the mode and
    /// builds as the host reports them, and one remark for each
    /// restriction the configuration places on the run.
    pub fn gather(
        config: &RunnerConfig,
        headless: bool,
        rust_debug: bool,
        godot_debug: bool,
    ) -> (r: Self)
        ensures
            r.mode@ == (if headless { "HEADLESS"@ } else { "EDITOR"@ }),
            r.rust_build@ == (if rust_debug { "debug"@ } else { "release"@ }),
            r.godot_build@ == (if godot_debug { "debug"@ } else { "release"@ }),
            r.additional_message.deep_view() == spec_additional_messages(*config),
    {
        let mode = if headless {
            "HEADLESS"
        } else {
            "EDITOR"
        };
        let rust_build = if rust_debug {
            "debug"
        } else {
            "release"
        };
        let godot_build = if godot_debug {
            "debug"
        } else {
            "release"
        };

        let mut additional_message: Vec<String> = Vec::new();
        if config.keyword.as_str().unicode_len() > 0 {
            let mut remark = String::from_str("using KEYWORD: '");
            remark.append(config.keyword.as_str());
            remark.append("'");
            additional_message.push(remark);
        }
        if config.disallow_focus {
            additional_message.push(String::from_str("disallowing focused"));
        }
        if config.disallow_skip {
            additional_message.push(String::from_str("disallowing skipping"));
        }
        if config.ignore_keywords {
            additional_message.push(String::from_str("ignoring keywords"));
        }
        if config.only_scene_path {
            additional_message.push(String::from_str("scene path specific"));
        }
        let r = Self { mode, rust_build, godot_build, additional_message };
        proof {
            assert(r.additional_message.deep_view() =~= spec_additional_messages(*config));
        }
        r
    }
}

} // verus!
