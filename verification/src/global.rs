//! The options that every command on a repository takes.
//!
//! Paths are held as text.

use vstd::prelude::*;
use crate::merge;
use crate::merge::Merge;
use crate::options::Compression;
use crate::sizes::Single;
use crate::units::Duration;

verus! {

/// Values for what neither the command line nor the configuration file gives.
#[derive(Debug, Copy, Clone)]
pub struct Defaults {
    /// Pack target size in MiB.
    pub pack_size_mib: Single,
    /// Compression level.
    pub compression: Compression,
    /// The verbosity level.
    pub verbosity: u32,
    /// Number of files to process in parallel.
    pub snapshot_readers: usize,
    /// Number of writer threads.
    pub snapshot_packers: usize,
    /// Garbage to tolerate in a pack, in percent.
    pub gc_tolerance_pct: Single,
}

/// The global options as the command line or the configuration file gives them.
#[derive(Debug, Default)]
pub struct CliGlobalArgs {
    /// Repository path.
    pub repo: Option<String>,
    /// Disable the cache.
    pub no_cache: Option<bool>,
    /// SSH private key.
    pub ssh_privatekey: Option<String>,
    /// SSH known_hosts file.
    pub ssh_known_hosts: Option<String>,
    /// File to read repository credentials from.
    pub auth_file: Option<String>,
    /// Pack target size in MiB.
    pub pack_size_mib: Option<Single>,
    /// Path to a key file.
    pub key: Option<String>,
    /// Disable logging.
    pub quiet: Option<bool>,
    /// Enable JSON output.
    pub json: Option<bool>,
    /// The verbosity level, from 0 to 3.
    pub verbosity: Option<u32>,
    /// Compression level.
    pub compression_level: Option<Compression>,
    /// How long to retry acquiring a lock.
    pub retry_lock_duration: Option<Duration>,
    /// Limit of the upload speed, in bytes per second.
    pub limit_upload: Option<u64>,
    /// Limit of the download speed, in bytes per second.
    pub limit_download: Option<u64>,
    /// Disable repository locking.
    pub no_lock: Option<bool>,
}

impl Clone for CliGlobalArgs {
    fn clone(&self) -> (r: Self)
        ensures
            r == *self,
    {
        CliGlobalArgs {
            repo: self.repo.clone(),
            no_cache: self.no_cache,
            ssh_privatekey: self.ssh_privatekey.clone(),
            ssh_known_hosts: self.ssh_known_hosts.clone(),
            auth_file: self.auth_file.clone(),
            pack_size_mib: self.pack_size_mib,
            key: self.key.clone(),
            quiet: self.quiet,
            json: self.json,
            verbosity: self.verbosity,
            compression_level: self.compression_level,
            retry_lock_duration: self.retry_lock_duration,
            limit_upload: self.limit_upload,
            limit_download: self.limit_download,
            no_lock: self.no_lock,
        }
    }
}

impl Merge for CliGlobalArgs {
    open spec fn merged(self, other: Self) -> Self {
        CliGlobalArgs {
            repo: merge::first(self.repo, other.repo),
            no_cache: merge::first(self.no_cache, other.no_cache),
            ssh_privatekey: merge::first(self.ssh_privatekey, other.ssh_privatekey),
            ssh_known_hosts: merge::first(self.ssh_known_hosts, other.ssh_known_hosts),
            auth_file: merge::first(self.auth_file, other.auth_file),
            pack_size_mib: merge::first(self.pack_size_mib, other.pack_size_mib),
            key: merge::first(self.key, other.key),
            quiet: merge::first(self.quiet, other.quiet),
            json: merge::first(self.json, other.json),
            verbosity: merge::first(self.verbosity, other.verbosity),
            compression_level: merge::first(self.compression_level, other.compression_level),
            retry_lock_duration: merge::first(self.retry_lock_duration, other.retry_lock_duration),
            limit_upload: merge::first(self.limit_upload, other.limit_upload),
            limit_download: merge::first(self.limit_download, other.limit_download),
            no_lock: merge::first(self.no_lock, other.no_lock),
        }
    }

    fn merge(&mut self, other: Self) {
        merge::merge_opt(&mut self.repo, other.repo);
        merge::merge_opt(&mut self.no_cache, other.no_cache);
        merge::merge_opt(&mut self.ssh_privatekey, other.ssh_privatekey);
        merge::merge_opt(&mut self.ssh_known_hosts, other.ssh_known_hosts);
        merge::merge_opt(&mut self.auth_file, other.auth_file);
        merge::merge_opt(&mut self.pack_size_mib, other.pack_size_mib);
        merge::merge_opt(&mut self.key, other.key);
        merge::merge_opt(&mut self.quiet, other.quiet);
        merge::merge_opt(&mut self.json, other.json);
        merge::merge_opt(&mut self.verbosity, other.verbosity);
        merge::merge_opt(&mut self.compression_level, other.compression_level);
        merge::merge_opt(&mut self.retry_lock_duration, other.retry_lock_duration);
        merge::merge_opt(&mut self.limit_upload, other.limit_upload);
        merge::merge_opt(&mut self.limit_download, other.limit_download);
        merge::merge_opt(&mut self.no_lock, other.no_lock);
    }
}

impl CliGlobalArgs {
    /// The options that a template of the configuration file shows.
    pub fn template(defaults: &Defaults) -> (r: CliGlobalArgs)
        ensures
            r.repo matches Some(s) && s@ == "/path/to/repo"@,
            r.no_cache == Some(false),
            r.ssh_privatekey matches Some(s) && s@ == "~/.ssh/id_ed25519"@,
            r.ssh_known_hosts matches Some(s) && s@ == "~/.ssh/known_hosts"@,
            r.auth_file matches Some(s) && s@ == "~/.mapache/auth"@,
            r.pack_size_mib == Some(defaults.pack_size_mib),
            r.key matches Some(s) && s@ == "~/.mapache/repo.key"@,
            r.quiet == Some(false),
            r.json == Some(false),
            r.verbosity == Some(defaults.verbosity),
            r.compression_level == Some(defaults.compression),
            r.retry_lock_duration == Some(Duration { millis: 300000 }),
            r.limit_upload == Some(10485760u64),
            r.limit_download == Some(52428800u64),
            r.no_lock == Some(false),
    {
        CliGlobalArgs {
            repo: Some("/path/to/repo".to_owned()),
            no_cache: Some(false),
            ssh_privatekey: Some("~/.ssh/id_ed25519".to_owned()),
            ssh_known_hosts: Some("~/.ssh/known_hosts".to_owned()),
            auth_file: Some("~/.mapache/auth".to_owned()),
            pack_size_mib: Some(defaults.pack_size_mib),
            key: Some("~/.mapache/repo.key".to_owned()),
            quiet: Some(false),
            json: Some(false),
            verbosity: Some(defaults.verbosity),
            compression_level: Some(defaults.compression),
            retry_lock_duration: Some(Duration::minutes(5)),
            limit_upload: Some(10 * 1024 * 1024),
            limit_download: Some(50 * 1024 * 1024),
            no_lock: Some(false),
        }
    }
}

/// CLI flags for overriding hooks.
#[derive(Debug, Clone)]
pub struct HookArgs {
    /// Shell command to run before the main command.
    pub pre_hook: Option<String>,
    /// Shell command to run after the main command.
    pub post_hook: Option<String>,
}

impl Default for HookArgs {
    fn default() -> (r: Self)
        ensures
            r.pre_hook is None,
            r.post_hook is None,
    {
        HookArgs { pre_hook: None, post_hook: None }
    }
}

/// Resolved global options: concrete values after merging the command line, the
/// configuration file, the environment and the defaults.
#[derive(Debug, Clone)]
pub struct GlobalArgs {
    /// Repository path.
    pub repo: String,
    /// Disable the cache.
    pub no_cache: bool,
    /// SSH private key.
    pub ssh_privatekey: Option<String>,
    /// SSH known_hosts file.
    pub ssh_known_hosts: Option<String>,
    /// File to read repository credentials from.
    pub auth_file: Option<String>,
    /// Pack target size in MiB.
    pub pack_size_mib: Single,
    /// Path to a key file.
    pub key: Option<String>,
    /// Disable logging.
    pub quiet: bool,
    /// Enable JSON output.
    pub json: bool,
    /// The verbosity level, if one was given.
    pub verbosity: Option<u32>,
    /// Compression level.
    pub compression_level: Compression,
    /// How long to retry acquiring a lock.
    pub retry_lock_duration: Option<Duration>,
    /// Limit of the upload speed, in bytes per second.
    pub limit_upload: Option<u64>,
    /// Limit of the download speed, in bytes per second.
    pub limit_download: Option<u64>,
    /// Disable repository locking.
    pub no_lock: bool,
}

/// What a storage backend is opened with.
#[derive(Debug, Clone)]
pub struct BackendOptions {
    /// Repository path.
    pub repo_path: String,
    /// SSH private key.
    pub ssh_privatekey: Option<String>,
    /// SSH known_hosts file.
    pub ssh_known_hosts: Option<String>,
    /// Whether nothing is to be written.
    pub dry_backend: bool,
    /// Limit of the upload speed, in bytes per second.
    pub limit_upload: Option<u64>,
    /// Limit of the download speed, in bytes per second.
    pub limit_download: Option<u64>,
}

/// What a repository is opened with.
#[derive(Debug, Copy, Clone)]
pub struct RepoConfig {
    /// Pack target size in bytes.
    pub pack_size: u64,
    /// Whether to use the cache.
    pub use_cache: bool,
    /// Compression level.
    pub compression: Compression,
}

impl GlobalArgs {
    /// What the storage backend is opened with.
    pub open spec fn storage(self, dry: bool) -> BackendOptions {
        BackendOptions {
            repo_path: self.repo,
            ssh_privatekey: self.ssh_privatekey,
            ssh_known_hosts: self.ssh_known_hosts,
            dry_backend: dry,
            limit_upload: self.limit_upload,
            limit_download: self.limit_download,
        }
    }

    /// What the repository is opened with.
    pub open spec fn opened_with(self) -> RepoConfig {
        RepoConfig {
            pack_size: self.pack_size_mib.bytes(),
            use_cache: !self.no_cache,
            compression: self.compression_level,
        }
    }

    /// What to open the storage backend with.
    pub fn backend_options(&self, dry: bool) -> (r: BackendOptions)
        ensures
            r == self.storage(dry),
            r == (BackendOptions {
                repo_path: self.repo,
                ssh_privatekey: self.ssh_privatekey,
                ssh_known_hosts: self.ssh_known_hosts,
                dry_backend: dry,
                limit_upload: self.limit_upload,
                limit_download: self.limit_download,
            }),
    {
        BackendOptions {
            repo_path: self.repo.clone(),
            ssh_privatekey: self.ssh_privatekey.clone(),
            ssh_known_hosts: self.ssh_known_hosts.clone(),
            dry_backend: dry,
            limit_upload: self.limit_upload,
            limit_download: self.limit_download,
        }
    }

    /// What to open the repository with.
    pub fn to_repo_config(&self) -> (r: RepoConfig)
        ensures
            r == self.opened_with(),
            r == (RepoConfig {
                pack_size: self.pack_size_mib.bytes(),
                use_cache: !self.no_cache,
                compression: self.compression_level,
            }),
    {
        RepoConfig {
            pack_size: self.pack_size_mib.to_bytes(),
            use_cache: !self.no_cache,
            compression: self.compression_level,
        }
    }

    /// The options of a command that works without a repository.
    pub fn default_no_repo(defaults: &Defaults) -> (r: GlobalArgs)
        ensures
            r.repo@ == Seq::<char>::empty(),
            r == (GlobalArgs {
                repo: r.repo,
                no_cache: false,
                ssh_privatekey: None,
                ssh_known_hosts: None,
                auth_file: None,
                pack_size_mib: defaults.pack_size_mib,
                key: None,
                quiet: false,
                json: false,
                verbosity: None,
                compression_level: defaults.compression,
                retry_lock_duration: None,
                limit_upload: None,
                limit_download: None,
                no_lock: false,
            }),
    {
        GlobalArgs {
            repo: String::new(),
            no_cache: false,
            ssh_privatekey: None,
            ssh_known_hosts: None,
            auth_file: None,
            pack_size_mib: defaults.pack_size_mib,
            key: None,
            quiet: false,
            json: false,
            verbosity: None,
            compression_level: defaults.compression,
            retry_lock_duration: None,
            limit_upload: None,
            limit_download: None,
            no_lock: false,
        }
    }
}

/// The value that is there, or another.
pub open spec fn or_else<T>(v: Option<T>, other: T) -> T {
    match v {
        Some(x) => x,
        None => other,
    }
}

/// What is said where no repository is named.
pub open spec fn no_repository() -> Seq<char> {
    "Repository path is required. Use --repo, set MAPACHE_REPOSITORY, or add it to config file."@
}

/// The concrete values that merged options come to: the repository from the
/// options or else from the environment, and a default for whatever else is left
/// open.
pub open spec fn resolved(
    cli: CliGlobalArgs,
    env_repo: Option<String>,
    defaults: Defaults,
) -> Result<GlobalArgs, Seq<char>> {
    match merge::first(cli.repo, env_repo) {
        None => Err(no_repository()),
        Some(repo) => Ok(
            GlobalArgs {
                repo,
                no_cache: or_else(cli.no_cache, false),
                ssh_privatekey: cli.ssh_privatekey,
                ssh_known_hosts: cli.ssh_known_hosts,
                auth_file: cli.auth_file,
                pack_size_mib: or_else(cli.pack_size_mib, defaults.pack_size_mib),
                key: cli.key,
                quiet: or_else(cli.quiet, false),
                json: or_else(cli.json, false),
                verbosity: cli.verbosity,
                compression_level: or_else(cli.compression_level, defaults.compression),
                retry_lock_duration: cli.retry_lock_duration,
                limit_upload: cli.limit_upload,
                limit_download: cli.limit_download,
                no_lock: or_else(cli.no_lock, false),
            },
        ),
    }
}

/// Converts merged options into concrete ones. `env_repo` is what
/// `MAPACHE_REPOSITORY` is set to.
pub fn cli_to_global_args(cli: &CliGlobalArgs, env_repo: Option<String>, defaults: &Defaults) -> (r: Result<
    GlobalArgs,
    String,
>)
    ensures
        crate::text::agrees(r, resolved(*cli, env_repo, *defaults)),
{
    let mut repo = cli.repo.clone();
    merge::merge_opt(&mut repo, env_repo);
    let repo: String = match repo {
        Some(repo) => repo,
        None => {
            return Err(
                "Repository path is required. Use --repo, set MAPACHE_REPOSITORY, or add it to config file.".to_owned(),
            );
        },
    };
    Ok(
        GlobalArgs {
            repo,
            no_cache: cli.no_cache.unwrap_or(false),
            ssh_privatekey: cli.ssh_privatekey.clone(),
            ssh_known_hosts: cli.ssh_known_hosts.clone(),
            auth_file: cli.auth_file.clone(),
            pack_size_mib: cli.pack_size_mib.unwrap_or(defaults.pack_size_mib),
            key: cli.key.clone(),
            quiet: cli.quiet.unwrap_or(false),
            json: cli.json.unwrap_or(false),
            verbosity: cli.verbosity,
            compression_level: cli.compression_level.unwrap_or(defaults.compression),
            retry_lock_duration: cli.retry_lock_duration,
            limit_upload: cli.limit_upload,
            limit_download: cli.limit_download,
            no_lock: cli.no_lock.unwrap_or(false),
        },
    )
}

/// The options with those of the configuration file filled in.
pub open spec fn with_config(cli: CliGlobalArgs, config: Option<CliGlobalArgs>) -> CliGlobalArgs {
    match config {
        Some(cfg) => cli.merged(cfg),
        None => cli,
    }
}

/// Resolves the global options of a command: those of the command line, then
/// those of the configuration file, then the environment, then the defaults.
pub fn resolve_global(
    cli: &CliGlobalArgs,
    config: &Option<CliGlobalArgs>,
    env_repo: Option<String>,
    defaults: &Defaults,
) -> (r: Result<GlobalArgs, String>)
    ensures
        crate::text::agrees(r, resolved(with_config(*cli, *config), env_repo, *defaults)),
{
    let mut g = cli.clone();
    if let Some(cfg) = config {
        g.merge(cfg.clone());
    }
    cli_to_global_args(&g, env_repo, defaults)
}

/// The repository that is named, if one is: on the command line, in the configuration
/// file or in the environment, in this order.
pub open spec fn repository_named(
    given: Option<String>,
    config: Option<CliGlobalArgs>,
    env_repo: Option<String>,
) -> Option<String> {
    let of_config = match config {
        Some(cfg) => cfg.repo,
        None => None,
    };
    merge::first(given, merge::first(of_config, env_repo))
}

/// Whether these are the options of a command that works without a repository, but for
/// the path of the one that is named, if one is.
pub open spec fn at_repository(g: GlobalArgs, named: Option<String>, defaults: Defaults) -> bool {
    &&& match named {
        Some(repo) => g.repo == repo,
        None => g.repo@ == Seq::<char>::empty(),
    }
    &&& g == (GlobalArgs {
        repo: g.repo,
        no_cache: false,
        ssh_privatekey: None,
        ssh_known_hosts: None,
        auth_file: None,
        pack_size_mib: defaults.pack_size_mib,
        key: None,
        quiet: false,
        json: false,
        verbosity: None,
        compression_level: defaults.compression,
        retry_lock_duration: None,
        limit_upload: None,
        limit_download: None,
        no_lock: false,
    })
}

/// The options of a command that works without a repository, but for the path of the
/// one that is named, if one is.
pub fn resolve_repository(
    given: &Option<String>,
    config: &Option<CliGlobalArgs>,
    env_repo: Option<String>,
    defaults: &Defaults,
) -> (r: GlobalArgs)
    ensures
        at_repository(r, repository_named(*given, *config, env_repo), *defaults),
{
    let mut repo = given.clone();
    if let Some(cfg) = config {
        merge::merge_opt(&mut repo, cfg.repo.clone());
    }
    merge::merge_opt(&mut repo, env_repo);
    let mut g = GlobalArgs::default_no_repo(defaults);
    if let Some(repo) = repo {
        g.repo = repo;
    }
    g
}

/// A command that takes the path of a repository and no other global option.
#[derive(Debug)]
pub struct WithRepository<T> {
    /// Repository path.
    pub repo: Option<String>,
    /// The options of the command.
    pub args: T,
}

/// A command with its global options.
#[derive(Debug)]
pub struct WithGlobal<T> {
    /// The global options.
    pub global: CliGlobalArgs,
    /// The options of the command.
    pub args: T,
}

/// Resolves the global options of a command whose own options can stand in the
/// configuration file too, and fills those in.
pub fn resolve_global_with_extra<T: Merge>(
    cmd: WithGlobal<T>,
    config: &Option<CliGlobalArgs>,
    extra: Option<T>,
    env_repo: Option<String>,
    defaults: &Defaults,
) -> (r: (Result<GlobalArgs, String>, WithGlobal<T>))
    ensures
        crate::text::agrees(r.0, resolved(with_config(cmd.global, *config), env_repo, *defaults)),
        r.1 == (WithGlobal {
            global: cmd.global,
            args: match extra {
                Some(cfg) => cmd.args.merged(cfg),
                None => cmd.args,
            },
        }),
{
    let mut args = cmd.args;
    if let Some(cfg) = extra {
        args.merge(cfg);
    }
    let global = resolve_global(&cmd.global, config, env_repo, defaults);
    (global, WithGlobal { global: cmd.global, args })
}

/// Whatever the command line gives stays, whatever the configuration file says;
/// and what it leaves open is taken from there.
pub proof fn law_command_line_comes_first(cli: CliGlobalArgs, cfg: CliGlobalArgs)
    ensures
        cli.repo is Some ==> cli.merged(cfg).repo == cli.repo,
        cli.repo is None ==> cli.merged(cfg).repo == cfg.repo,
        cli.no_cache is Some ==> cli.merged(cfg).no_cache == cli.no_cache,
        cli.no_cache is None ==> cli.merged(cfg).no_cache == cfg.no_cache,
        cli.ssh_privatekey is Some ==> cli.merged(cfg).ssh_privatekey == cli.ssh_privatekey,
        cli.ssh_privatekey is None ==> cli.merged(cfg).ssh_privatekey == cfg.ssh_privatekey,
        cli.ssh_known_hosts is Some ==> cli.merged(cfg).ssh_known_hosts == cli.ssh_known_hosts,
        cli.ssh_known_hosts is None ==> cli.merged(cfg).ssh_known_hosts == cfg.ssh_known_hosts,
        cli.auth_file is Some ==> cli.merged(cfg).auth_file == cli.auth_file,
        cli.auth_file is None ==> cli.merged(cfg).auth_file == cfg.auth_file,
        cli.pack_size_mib is Some ==> cli.merged(cfg).pack_size_mib == cli.pack_size_mib,
        cli.pack_size_mib is None ==> cli.merged(cfg).pack_size_mib == cfg.pack_size_mib,
        cli.key is Some ==> cli.merged(cfg).key == cli.key,
        cli.key is None ==> cli.merged(cfg).key == cfg.key,
        cli.quiet is Some ==> cli.merged(cfg).quiet == cli.quiet,
        cli.quiet is None ==> cli.merged(cfg).quiet == cfg.quiet,
        cli.json is Some ==> cli.merged(cfg).json == cli.json,
        cli.json is None ==> cli.merged(cfg).json == cfg.json,
        cli.verbosity is Some ==> cli.merged(cfg).verbosity == cli.verbosity,
        cli.verbosity is None ==> cli.merged(cfg).verbosity == cfg.verbosity,
        cli.compression_level is Some ==> cli.merged(cfg).compression_level == cli.compression_level,
        cli.compression_level is None ==> cli.merged(cfg).compression_level == cfg.compression_level,
        cli.retry_lock_duration is Some ==> cli.merged(cfg).retry_lock_duration == cli.retry_lock_duration,
        cli.retry_lock_duration is None ==> cli.merged(cfg).retry_lock_duration == cfg.retry_lock_duration,
        cli.limit_upload is Some ==> cli.merged(cfg).limit_upload == cli.limit_upload,
        cli.limit_upload is None ==> cli.merged(cfg).limit_upload == cfg.limit_upload,
        cli.limit_download is Some ==> cli.merged(cfg).limit_download == cli.limit_download,
        cli.limit_download is None ==> cli.merged(cfg).limit_download == cfg.limit_download,
        cli.no_lock is Some ==> cli.merged(cfg).no_lock == cli.no_lock,
        cli.no_lock is None ==> cli.merged(cfg).no_lock == cfg.no_lock,
{
}

/// Filling in the same configuration a second time changes nothing.
pub proof fn law_filling_in_twice_is_once(cli: CliGlobalArgs, cfg: CliGlobalArgs)
    ensures
        cli.merged(cfg).merged(cfg) == cli.merged(cfg),
{
}

/// The repository is the one of the command line, else the one of the
/// configuration file, else the one of the environment; without any of them
/// nothing is resolved.
pub proof fn law_where_the_repository_comes_from(
    cli: CliGlobalArgs,
    config: Option<CliGlobalArgs>,
    env_repo: Option<String>,
    defaults: Defaults,
)
    ensures
        ({
            let r = resolved(with_config(cli, config), env_repo, defaults);
            let of_config = match config {
                Some(cfg) => cfg.repo,
                None => None,
            };
            match (cli.repo, of_config, env_repo) {
                (Some(repo), _, _) => r matches Ok(g) && g.repo == repo,
                (None, Some(repo), _) => r matches Ok(g) && g.repo == repo,
                (None, None, Some(repo)) => r matches Ok(g) && g.repo == repo,
                (None, None, None) => r == Err::<GlobalArgs, Seq<char>>(no_repository()),
            }
        }),
{
}

/// Every option comes out under its own name, with the value that the command line
/// gives it, else the one that the configuration file gives it; and one that neither
/// gives is what it is by default, or not there.
pub proof fn law_options_keep_their_names(
    cli: CliGlobalArgs,
    config: Option<CliGlobalArgs>,
    env_repo: Option<String>,
    defaults: Defaults,
    g: GlobalArgs,
)
    requires
        resolved(with_config(cli, config), env_repo, defaults) == Ok::<GlobalArgs, Seq<char>>(g),
    ensures
        cli.no_cache is Some ==> g.no_cache == cli.no_cache.unwrap(),
        cli.no_cache is None && (config matches Some(cfg) && cfg.no_cache is Some) ==> g.no_cache
            == config.unwrap().no_cache.unwrap(),
        cli.no_cache is None && (config matches Some(cfg) ==> cfg.no_cache is None) ==> g.no_cache == false,
        cli.pack_size_mib is Some ==> g.pack_size_mib == cli.pack_size_mib.unwrap(),
        cli.pack_size_mib is None && (config matches Some(cfg) && cfg.pack_size_mib is Some) ==> g.pack_size_mib
            == config.unwrap().pack_size_mib.unwrap(),
        cli.pack_size_mib is None && (config matches Some(cfg) ==> cfg.pack_size_mib is None) ==> g.pack_size_mib
            == defaults.pack_size_mib,
        cli.quiet is Some ==> g.quiet == cli.quiet.unwrap(),
        cli.quiet is None && (config matches Some(cfg) && cfg.quiet is Some) ==> g.quiet
            == config.unwrap().quiet.unwrap(),
        cli.quiet is None && (config matches Some(cfg) ==> cfg.quiet is None) ==> g.quiet == false,
        cli.json is Some ==> g.json == cli.json.unwrap(),
        cli.json is None && (config matches Some(cfg) && cfg.json is Some) ==> g.json
            == config.unwrap().json.unwrap(),
        cli.json is None && (config matches Some(cfg) ==> cfg.json is None) ==> g.json == false,
        cli.compression_level is Some ==> g.compression_level == cli.compression_level.unwrap(),
        cli.compression_level is None && (config matches Some(cfg) && cfg.compression_level is Some) ==> g.compression_level
            == config.unwrap().compression_level.unwrap(),
        cli.compression_level is None && (config matches Some(cfg) ==> cfg.compression_level is None) ==> g.compression_level
            == defaults.compression,
        cli.no_lock is Some ==> g.no_lock == cli.no_lock.unwrap(),
        cli.no_lock is None && (config matches Some(cfg) && cfg.no_lock is Some) ==> g.no_lock
            == config.unwrap().no_lock.unwrap(),
        cli.no_lock is None && (config matches Some(cfg) ==> cfg.no_lock is None) ==> g.no_lock == false,
        cli.ssh_privatekey is Some ==> g.ssh_privatekey == cli.ssh_privatekey,
        cli.ssh_privatekey is None && config is Some ==> g.ssh_privatekey == config.unwrap().ssh_privatekey,
        cli.ssh_privatekey is None && config is None ==> g.ssh_privatekey is None,
        cli.ssh_known_hosts is Some ==> g.ssh_known_hosts == cli.ssh_known_hosts,
        cli.ssh_known_hosts is None && config is Some ==> g.ssh_known_hosts == config.unwrap().ssh_known_hosts,
        cli.ssh_known_hosts is None && config is None ==> g.ssh_known_hosts is None,
        cli.auth_file is Some ==> g.auth_file == cli.auth_file,
        cli.auth_file is None && config is Some ==> g.auth_file == config.unwrap().auth_file,
        cli.auth_file is None && config is None ==> g.auth_file is None,
        cli.key is Some ==> g.key == cli.key,
        cli.key is None && config is Some ==> g.key == config.unwrap().key,
        cli.key is None && config is None ==> g.key is None,
        cli.verbosity is Some ==> g.verbosity == cli.verbosity,
        cli.verbosity is None && config is Some ==> g.verbosity == config.unwrap().verbosity,
        cli.verbosity is None && config is None ==> g.verbosity is None,
        cli.retry_lock_duration is Some ==> g.retry_lock_duration == cli.retry_lock_duration,
        cli.retry_lock_duration is None && config is Some ==> g.retry_lock_duration == config.unwrap().retry_lock_duration,
        cli.retry_lock_duration is None && config is None ==> g.retry_lock_duration is None,
        cli.limit_upload is Some ==> g.limit_upload == cli.limit_upload,
        cli.limit_upload is None && config is Some ==> g.limit_upload == config.unwrap().limit_upload,
        cli.limit_upload is None && config is None ==> g.limit_upload is None,
        cli.limit_download is Some ==> g.limit_download == cli.limit_download,
        cli.limit_download is None && config is Some ==> g.limit_download == config.unwrap().limit_download,
        cli.limit_download is None && config is None ==> g.limit_download is None,
{
}

/// Whether options resolve depends on nothing but a repository being named somewhere,
/// and what it is called says nothing of the other options.
pub proof fn law_the_repository_stands_by_itself(
    cli: CliGlobalArgs,
    other: Option<String>,
    env_repo: Option<String>,
    defaults: Defaults,
)
    ensures
        resolved(cli, env_repo, defaults) is Ok <==> cli.repo is Some || env_repo is Some,
        resolved(cli, env_repo, defaults) matches Err(e) ==> e
            == "Repository path is required. Use --repo, set MAPACHE_REPOSITORY, or add it to config file."@,
        match (
            resolved(cli, env_repo, defaults),
            resolved((CliGlobalArgs { repo: other, ..cli }), env_repo, defaults),
        ) {
            (Ok(g), Ok(h)) => h == (GlobalArgs { repo: h.repo, ..g }),
            _ => true,
        },
{
}

/// A command that takes nothing but the path of a repository runs with what any other
/// command would run with if nothing but that path were given.
pub proof fn law_nothing_but_the_path_is_taken(g: GlobalArgs, repo: String, defaults: Defaults)
    ensures
        at_repository(g, Some(repo), defaults) <==> resolved(
            (CliGlobalArgs {
                repo: Some(repo),
                no_cache: None,
                ssh_privatekey: None,
                ssh_known_hosts: None,
                auth_file: None,
                pack_size_mib: None,
                key: None,
                quiet: None,
                json: None,
                verbosity: None,
                compression_level: None,
                retry_lock_duration: None,
                limit_upload: None,
                limit_download: None,
                no_lock: None,
            }),
            None,
            defaults,
        ) == Ok::<GlobalArgs, Seq<char>>(g),
        at_repository(g, None, defaults) ==> g.repo@.len() == 0 && at_repository(
            (GlobalArgs { repo, ..g }),
            Some(repo),
            defaults,
        ),
{
}

/// The repository that is named is the one of the command line, else the one of the
/// configuration file, else the one of the environment.
pub proof fn law_who_names_the_repository(
    given: Option<String>,
    config: Option<CliGlobalArgs>,
    env_repo: Option<String>,
)
    ensures
        given is Some ==> repository_named(given, config, env_repo) == given,
        given is None && (config matches Some(cfg) && cfg.repo is Some) ==> repository_named(given, config, env_repo)
            == config.unwrap().repo,
        given is None && (config matches Some(cfg) ==> cfg.repo is None) ==> repository_named(given, config, env_repo)
            == env_repo,
{
}

/// A value that is there is taken, and another one only where there is none.
pub proof fn law_defaults_stand_in<T>(v: T, other: T)
    ensures
        or_else(Some(v), other) == v,
        or_else(None, other) == other,
{
}

/// What is given on the command line reaches the storage and the repository: the limits,
/// each in its direction, the keys, the path, the pack size, the compression and whether
/// there is a cache; and the storage writes nothing exactly where it is told so.
pub proof fn law_options_reach_the_repository(
    cli: CliGlobalArgs,
    env_repo: Option<String>,
    defaults: Defaults,
    g: GlobalArgs,
    dry: bool,
)
    requires
        resolved(cli, env_repo, defaults) == Ok::<GlobalArgs, Seq<char>>(g),
    ensures
        g.storage(dry).limit_upload == cli.limit_upload,
        g.storage(dry).limit_download == cli.limit_download,
        g.storage(dry).ssh_privatekey == cli.ssh_privatekey,
        g.storage(dry).ssh_known_hosts == cli.ssh_known_hosts,
        g.storage(dry).repo_path == g.repo,
        cli.repo matches Some(repo) ==> g.storage(dry).repo_path == repo,
        g.storage(dry).dry_backend == dry,
        g.opened_with().use_cache <==> cli.no_cache != Some(true),
        cli.compression_level matches Some(c) ==> g.opened_with().compression == c,
        cli.compression_level is None ==> g.opened_with().compression == defaults.compression,
        cli.pack_size_mib matches Some(s) ==> g.opened_with().pack_size == s.bytes(),
        cli.pack_size_mib is None ==> g.opened_with().pack_size == defaults.pack_size_mib.bytes(),
{
}

} // verus!
