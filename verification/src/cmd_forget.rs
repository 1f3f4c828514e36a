//! `forget`: which snapshots go, and how.

use vstd::prelude::*;
use crate::access::Needs;
use crate::errors::{MapacheError, ToExitCode};
use crate::global::{Defaults, HookArgs};
use crate::ids::{ID, IdSet};
use crate::merge;
use crate::merge::Merge;
use crate::sizes::Single;
use crate::snapshots;
use crate::snapshots::SnapshotEntry;
use crate::tags;
use crate::text;
use crate::text_set::TextSet;
use crate::units;
use crate::units::Duration;

verus! {

/// Why snapshots could not be forgotten.
#[derive(Debug)]
pub enum ForgetError {
    /// The repository could not be opened.
    RepoOpenFail(String),
    /// The retention rules make no sense.
    InvalidRule(String),
    /// The work itself failed.
    ForgetFailed(String),
    /// The user broke it off.
    Interrupted,
    /// An error of the repository.
    Repo(MapacheError),
    /// An error of the file system.
    Io(String),
}

impl ToExitCode for ForgetError {
    open spec fn exit_code(&self) -> i32 {
        match self {
            ForgetError::RepoOpenFail(_) => 10,
            ForgetError::InvalidRule(_) => 20,
            ForgetError::ForgetFailed(_) => 30,
            ForgetError::Interrupted => 130,
            ForgetError::Repo(_) => 1,
            ForgetError::Io(_) => 1,
        }
    }

    open spec fn message(&self) -> Seq<char> {
        match self {
            ForgetError::RepoOpenFail(s) => "failed to open repository: "@ + s@,
            ForgetError::InvalidRule(s) => "invalid retention rule: "@ + s@,
            ForgetError::ForgetFailed(s) => "forget failed: "@ + s@,
            ForgetError::Interrupted => "forget interrupted by user"@,
            ForgetError::Repo(e) => e.displayed(),
            ForgetError::Io(s) => s@,
        }
    }

    fn to_exit_code(&self) -> i32 {
        match self {
            ForgetError::RepoOpenFail(_) => 10,
            ForgetError::InvalidRule(_) => 20,
            ForgetError::ForgetFailed(_) => 30,
            ForgetError::Interrupted => 130,
            ForgetError::Repo(_) => 1,
            ForgetError::Io(_) => 1,
        }
    }

    fn to_text(&self) -> String {
        match self {
            ForgetError::RepoOpenFail(s) => text::join2("failed to open repository: ", s.as_str()),
            ForgetError::InvalidRule(s) => text::join2("invalid retention rule: ", s.as_str()),
            ForgetError::ForgetFailed(s) => text::join2("forget failed: ", s.as_str()),
            ForgetError::Interrupted => "forget interrupted by user".to_owned(),
            ForgetError::Repo(e) => e.shown(),
            ForgetError::Io(s) => s.clone(),
        }
    }
}

// ---------------------------------------------------------------------------
// Options
// ---------------------------------------------------------------------------

/// The options of the command.
#[derive(Debug, Clone, Default)]
pub struct CmdArgs {
    /// Forget specific snapshots by their IDs.
    pub forget: Vec<String>,
    /// Delete the snapshot without staging.
    pub force: bool,
    /// Only consider snapshots with any tag from the list.
    pub tags_str: Option<String>,
    /// Only consider snapshots from these hosts.
    pub hosts: Vec<String>,
    /// Keep the last N snapshots. N is greater than 0.
    pub keep_last: Option<usize>,
    /// Keep snapshots within a specified duration.
    pub keep_within: Option<Duration>,
    /// Keep N yearly snapshots. N is greater than 1.
    pub keep_yearly: Option<usize>,
    /// Keep N monthly snapshots. N is greater than 1.
    pub keep_monthly: Option<usize>,
    /// Keep N weekly snapshots. N is greater than 1.
    pub keep_weekly: Option<usize>,
    /// Keep N daily snapshots. N is greater than 1.
    pub keep_daily: Option<usize>,
    /// Keep N hourly snapshots. N is greater than 1.
    pub keep_hourly: Option<usize>,
    /// Keep all snapshots with tags.
    pub keep_tags: Option<String>,
    /// Always keep at least N snapshots.
    pub keep_min: Option<usize>,
    /// Show which snapshots would be removed without actually removing them.
    pub dry_run: bool,
    /// Run the garbage collector after this command.
    pub run_gc: bool,
    /// The percentage of garbage to tolerate in a pack file before repacking.
    pub tolerance: Option<Single>,
    /// Hooks of the command line.
    pub hook_args: HookArgs,
}

impl CmdArgs {
    /// The options that a template of the configuration file shows. Each number in
    /// it is one that the configuration file may hold.
    pub fn template() -> (r: CmdArgs)
        ensures
            r.forget@.len() == 0,
            !r.force,
            r.tags_str is None,
            r.hosts@.len() == 0,
            r.keep_last == Some(10usize),
            r.keep_within is None,
            r.keep_yearly == Some(2usize),
            r.keep_monthly == Some(6usize),
            r.keep_weekly == Some(4usize),
            r.keep_daily == Some(7usize),
            r.keep_hourly is None,
            r.keep_tags matches Some(s) && s@ == "important,archive"@,
            r.keep_min is None,
            !r.dry_run,
            !r.run_gc,
            r.tolerance == Some(Single { bits: 0 }),
            r.hook_args.pre_hook is None,
            r.hook_args.post_hook is None,
            reads_back(r.keep_last, |v: Option<RetentionValue>| retention_value(v)),
            reads_back(r.keep_yearly, |v: Option<RetentionValue>| period_value(v)),
            reads_back(r.keep_monthly, |v: Option<RetentionValue>| period_value(v)),
            reads_back(r.keep_weekly, |v: Option<RetentionValue>| period_value(v)),
            reads_back(r.keep_daily, |v: Option<RetentionValue>| period_value(v)),
            reads_back(r.keep_hourly, |v: Option<RetentionValue>| period_value(v)),
            reads_back(r.keep_min, |v: Option<RetentionValue>| retention_value(v)),
    {
        CmdArgs {
            forget: Vec::new(),
            force: false,
            tags_str: None,
            hosts: Vec::new(),
            keep_last: Some(10),
            keep_within: None,
            keep_yearly: Some(2),
            keep_monthly: Some(6),
            keep_weekly: Some(4),
            keep_daily: Some(7),
            keep_hourly: None,
            keep_tags: Some("important,archive".to_owned()),
            keep_min: None,
            dry_run: false,
            run_gc: false,
            tolerance: Some(Single { bits: 0 }),
            hook_args: HookArgs::default(),
        }
    }

    /// How the command wants its repository: no one else may hold a lock, and a dry
    /// run writes nothing.
    pub fn needs(&self) -> (r: Needs)
        ensures
            r == (Needs { dry_backend: self.dry_run, exclusive_lock: true }),
    {
        Needs { dry_backend: self.dry_run, exclusive_lock: true }
    }
}

impl Merge for CmdArgs {
    open spec fn merged(self, other: Self) -> Self {
        CmdArgs {
            forget: merge::first_list(self.forget, other.forget),
            force: self.force,
            tags_str: merge::first(self.tags_str, other.tags_str),
            hosts: merge::first_list(self.hosts, other.hosts),
            keep_last: merge::first(self.keep_last, other.keep_last),
            keep_within: merge::first(self.keep_within, other.keep_within),
            keep_yearly: merge::first(self.keep_yearly, other.keep_yearly),
            keep_monthly: merge::first(self.keep_monthly, other.keep_monthly),
            keep_weekly: merge::first(self.keep_weekly, other.keep_weekly),
            keep_daily: merge::first(self.keep_daily, other.keep_daily),
            keep_hourly: merge::first(self.keep_hourly, other.keep_hourly),
            keep_tags: merge::first(self.keep_tags, other.keep_tags),
            keep_min: merge::first(self.keep_min, other.keep_min),
            dry_run: self.dry_run,
            run_gc: self.run_gc,
            tolerance: merge::first(self.tolerance, other.tolerance),
            hook_args: self.hook_args,
        }
    }

    fn merge(&mut self, other: Self) {
        merge::merge_list(&mut self.forget, other.forget);
        merge::merge_opt(&mut self.tags_str, other.tags_str);
        merge::merge_list(&mut self.hosts, other.hosts);
        merge::merge_opt(&mut self.keep_last, other.keep_last);
        merge::merge_opt(&mut self.keep_within, other.keep_within);
        merge::merge_opt(&mut self.keep_yearly, other.keep_yearly);
        merge::merge_opt(&mut self.keep_monthly, other.keep_monthly);
        merge::merge_opt(&mut self.keep_weekly, other.keep_weekly);
        merge::merge_opt(&mut self.keep_daily, other.keep_daily);
        merge::merge_opt(&mut self.keep_hourly, other.keep_hourly);
        merge::merge_opt(&mut self.keep_tags, other.keep_tags);
        merge::merge_opt(&mut self.keep_min, other.keep_min);
        merge::merge_opt(&mut self.tolerance, other.tolerance);
    }
}

/// What a number of snapshots to keep reads as: `all` for any number, else a
/// number above zero.
pub open spec fn retention_number(s: Seq<char>) -> Result<usize, Seq<char>> {
    if s == "all"@ {
        Ok(usize::MAX)
    } else {
        match text::signed(s) {
            Some(n) => if !(isize::MIN <= n <= isize::MAX) {
                Err(s + " is not a number"@)
            } else if n > 0 {
                Ok(n as usize)
            } else {
                Err("n must be greater than 0"@)
            },
            None => Err(s + " is not a number"@),
        }
    }
}

/// Reads how many snapshots to keep.
pub fn parse_retention_number(s: &str) -> (r: Result<usize, String>)
    ensures
        text::agrees(r, retention_number(s@)),
{
    if text::same(s, "all") {
        return Ok(usize::MAX);
    }
    match text::parse_signed(s, isize::MIN as i128, isize::MAX as i128) {
        Some(n) => {
            if n > 0 {
                Ok(n as usize)
            } else {
                Err("n must be greater than 0".to_owned())
            }
        },
        None => Err(text::join2(s, " is not a number")),
    }
}

/// How many snapshots to keep, as the configuration file gives it.
#[derive(Debug)]
pub enum RetentionValue {
    /// A number.
    Number(usize),
    /// A text.
    Text(String),
}

/// What a number of snapshots to keep in the configuration file comes to.
pub open spec fn retention_value(opt: Option<RetentionValue>) -> Result<Option<usize>, Seq<char>> {
    match opt {
        Some(RetentionValue::Number(n)) => if n > 0 {
            Ok(Some(n))
        } else {
            Err("retention number must be greater than 0"@)
        },
        Some(RetentionValue::Text(s)) => match retention_number(s@) {
            Ok(n) => Ok(Some(n)),
            Err(e) => Err(e),
        },
        None => Ok(None),
    }
}

/// Takes a number of snapshots to keep from the configuration file.
pub fn deserialize_retention_opt(opt: Option<RetentionValue>) -> (r: Result<Option<usize>, String>)
    ensures
        text::agrees(r, retention_value(opt)),
{
    match opt {
        Some(RetentionValue::Number(n)) => {
            if n > 0 {
                Ok(Some(n))
            } else {
                Err("retention number must be greater than 0".to_owned())
            }
        },
        Some(RetentionValue::Text(s)) => match parse_retention_number(s.as_str()) {
            Ok(n) => Ok(Some(n)),
            Err(e) => Err(e),
        },
        None => Ok(None),
    }
}

/// What a number of years, months, weeks, days or hours to keep snapshots of reads
/// as: `all` for any number, else a number above one.
pub open spec fn period_number(s: Seq<char>) -> Result<usize, Seq<char>> {
    if s == "all"@ {
        Ok(usize::MAX)
    } else {
        match text::signed(s) {
            Some(n) => if !(isize::MIN <= n <= isize::MAX) {
                Err(s + " is not a number"@)
            } else if n > 1 {
                Ok(n as usize)
            } else {
                Err("n must be greater than 1"@)
            },
            None => Err(s + " is not a number"@),
        }
    }
}

/// Reads how many years, months, weeks, days or hours to keep snapshots of.
pub fn parse_period_number(s: &str) -> (r: Result<usize, String>)
    ensures
        text::agrees(r, period_number(s@)),
{
    if text::same(s, "all") {
        return Ok(usize::MAX);
    }
    match text::parse_signed(s, isize::MIN as i128, isize::MAX as i128) {
        Some(n) => {
            if n > 1 {
                Ok(n as usize)
            } else {
                Err("n must be greater than 1".to_owned())
            }
        },
        None => Err(text::join2(s, " is not a number")),
    }
}

/// What a number of years, months, weeks, days or hours in the configuration file
/// comes to.
pub open spec fn period_value(opt: Option<RetentionValue>) -> Result<Option<usize>, Seq<char>> {
    match opt {
        Some(RetentionValue::Number(n)) => if n > 1 {
            Ok(Some(n))
        } else {
            Err("retention number must be greater than 1"@)
        },
        Some(RetentionValue::Text(s)) => match period_number(s@) {
            Ok(n) => Ok(Some(n)),
            Err(e) => Err(e),
        },
        None => Ok(None),
    }
}

/// Takes a number of years, months, weeks, days or hours from the configuration
/// file.
pub fn deserialize_period_opt(opt: Option<RetentionValue>) -> (r: Result<Option<usize>, String>)
    ensures
        text::agrees(r, period_value(opt)),
{
    match opt {
        Some(RetentionValue::Number(n)) => {
            if n > 1 {
                Ok(Some(n))
            } else {
                Err("retention number must be greater than 1".to_owned())
            }
        },
        Some(RetentionValue::Text(s)) => match parse_period_number(s.as_str()) {
            Ok(n) => Ok(Some(n)),
            Err(e) => Err(e),
        },
        None => Ok(None),
    }
}

/// Whether an option as it is written out is one that its reader takes.
pub open spec fn reads_back(
    n: Option<usize>,
    reader: spec_fn(Option<RetentionValue>) -> Result<Option<usize>, Seq<char>>,
) -> bool {
    match n {
        Some(k) => reader(Some(RetentionValue::Number(k))) == Ok::<Option<usize>, Seq<char>>(n),
        None => reader(None) == Ok::<Option<usize>, Seq<char>>(n),
    }
}

/// What the age up to which snapshots are kept reads as: any duration but zero,
/// within which nothing would be kept.
pub open spec fn keep_within(s: Seq<char>) -> Result<Duration, Seq<char>> {
    match units::duration(s) {
        Ok(d) => if d.millis == 0 {
            Err("keep-within must be greater than 0"@)
        } else {
            Ok(d)
        },
        Err(e) => Err(e),
    }
}

/// Reads the age up to which snapshots are kept.
pub fn parse_keep_within(s: &str) -> (r: Result<Duration, String>)
    ensures
        text::agrees(r, keep_within(s@)),
{
    match units::parse_duration_string(s) {
        Ok(d) => {
            if d.is_zero() {
                Err("keep-within must be greater than 0".to_owned())
            } else {
                Ok(d)
            }
        },
        Err(e) => Err(e),
    }
}

/// Reads the age up to which snapshots are kept in the configuration file, if
/// there is one.
pub fn deserialize_duration_opt(opt: Option<String>) -> (r: Result<Option<Duration>, String>)
    ensures
        text::agrees(r, text::optional(opt, |s: Seq<char>| keep_within(s))),
{
    match opt {
        None => Ok(None),
        Some(s) => match parse_keep_within(s.as_str()) {
            Ok(d) => Ok(Some(d)),
            Err(e) => Err(e),
        },
    }
}

// ---------------------------------------------------------------------------
// Rules
// ---------------------------------------------------------------------------

/// A reason to keep snapshots.
#[derive(Debug)]
pub enum RetentionRule {
    /// Keep the last so many.
    KeepLast(usize),
    /// Keep those that are no older.
    KeepWithin(Duration),
    /// Keep one a year, for so many years.
    KeepYearly(usize),
    /// Keep one a month, for so many months.
    KeepMonthly(usize),
    /// Keep one a week, for so many weeks.
    KeepWeekly(usize),
    /// Keep one a day, for so many days.
    KeepDaily(usize),
    /// Keep one an hour, for so many hours.
    KeepHourly(usize),
    /// Keep those with one of these tags.
    KeepTags(TextSet),
}

/// A rule, with its tags as a set.
pub enum Rule {
    /// Keep the last so many.
    Last(usize),
    /// Keep those that are no older.
    Within(Duration),
    /// Keep one a year, for so many years.
    Yearly(usize),
    /// Keep one a month, for so many months.
    Monthly(usize),
    /// Keep one a week, for so many weeks.
    Weekly(usize),
    /// Keep one a day, for so many days.
    Daily(usize),
    /// Keep one an hour, for so many hours.
    Hourly(usize),
    /// Keep those with one of these tags.
    Tags(Set<Seq<char>>),
}

impl View for RetentionRule {
    type V = Rule;

    open spec fn view(&self) -> Rule {
        match self {
            RetentionRule::KeepLast(n) => Rule::Last(*n),
            RetentionRule::KeepWithin(d) => Rule::Within(*d),
            RetentionRule::KeepYearly(n) => Rule::Yearly(*n),
            RetentionRule::KeepMonthly(n) => Rule::Monthly(*n),
            RetentionRule::KeepWeekly(n) => Rule::Weekly(*n),
            RetentionRule::KeepDaily(n) => Rule::Daily(*n),
            RetentionRule::KeepHourly(n) => Rule::Hourly(*n),
            RetentionRule::KeepTags(t) => Rule::Tags(t@),
        }
    }
}

/// A list of one rule, where there is one.
pub open spec fn given(rule: Option<Rule>) -> Seq<Rule> {
    match rule {
        Some(r) => seq![r],
        None => Seq::empty(),
    }
}

impl CmdArgs {
    /// The rule of `keep_last`, if it is set.
    pub open spec fn keep_last_rule(self) -> Option<Rule> {
        match self.keep_last {
            Some(n) => Some(Rule::Last(n)),
            None => None,
        }
    }

    /// The rule of `keep_within`, if it is set.
    pub open spec fn keep_within_rule(self) -> Option<Rule> {
        match self.keep_within {
            Some(d) => Some(Rule::Within(d)),
            None => None,
        }
    }

    /// The rule of `keep_yearly`, if it is set.
    pub open spec fn keep_yearly_rule(self) -> Option<Rule> {
        match self.keep_yearly {
            Some(n) => Some(Rule::Yearly(n)),
            None => None,
        }
    }

    /// The rule of `keep_monthly`, if it is set.
    pub open spec fn keep_monthly_rule(self) -> Option<Rule> {
        match self.keep_monthly {
            Some(n) => Some(Rule::Monthly(n)),
            None => None,
        }
    }

    /// The rule of `keep_weekly`, if it is set.
    pub open spec fn keep_weekly_rule(self) -> Option<Rule> {
        match self.keep_weekly {
            Some(n) => Some(Rule::Weekly(n)),
            None => None,
        }
    }

    /// The rule of `keep_daily`, if it is set.
    pub open spec fn keep_daily_rule(self) -> Option<Rule> {
        match self.keep_daily {
            Some(n) => Some(Rule::Daily(n)),
            None => None,
        }
    }

    /// The rule of `keep_hourly`, if it is set.
    pub open spec fn keep_hourly_rule(self) -> Option<Rule> {
        match self.keep_hourly {
            Some(n) => Some(Rule::Hourly(n)),
            None => None,
        }
    }

    /// The rule of `keep_tags`, if it is set.
    pub open spec fn keep_tags_rule(self) -> Option<Rule> {
        match self.keep_tags {
            Some(s) => Some(Rule::Tags(tags::tags_named(s@))),
            None => None,
        }
    }
}

/// The rules that the options give, in a fixed order.
pub open spec fn rules_given(args: CmdArgs) -> Seq<Rule> {
    given(args.keep_last_rule()) + given(args.keep_within_rule()) + given(args.keep_yearly_rule()) + given(
        args.keep_monthly_rule(),
    ) + given(args.keep_weekly_rule()) + given(args.keep_daily_rule()) + given(args.keep_hourly_rule()) + given(
        args.keep_tags_rule(),
    )
}

/// The views of a list of rules.
pub open spec fn views(rules: Seq<RetentionRule>) -> Seq<Rule> {
    rules.map_values(|r: RetentionRule| r@)
}

/// Whether the tags of every rule are in order.
pub open spec fn in_order(rules: Seq<RetentionRule>) -> bool {
    forall|i: int| 0 <= i < rules.len() ==> ((#[trigger] rules[i]) matches RetentionRule::KeepTags(t) ==> t.well_formed())
}

fn add_rule(rules: &mut Vec<RetentionRule>, rule: Option<RetentionRule>)
    requires
        in_order(old(rules)@),
        rule matches Some(RetentionRule::KeepTags(t)) ==> t.well_formed(),
    ensures
        in_order(final(rules)@),
        views(final(rules)@) == views(old(rules)@) + given(
            match rule {
                Some(r) => Some(r@),
                None => None,
            },
        ),
{
    let ghost before = rules@;
    match rule {
        Some(rule) => {
            rules.push(rule);
            assert(views(rules@) =~= views(before) + seq![rule@]);
        },
        None => {
            assert(views(before) =~= views(before) + Seq::<Rule>::empty());
        },
    }
}

/// The rules that the options give. There has to be one.
pub fn retention_rules(args: &CmdArgs) -> (r: Result<Vec<RetentionRule>, ForgetError>)
    ensures
        match r {
            Ok(rules) => rules@.len() > 0 && views(rules@) == rules_given(*args) && in_order(rules@),
            Err(e) => rules_given(*args).len() == 0 && (e matches ForgetError::InvalidRule(s) && s@
                == "at least one retention rule must be used."@),
        },
{
    let mut rules: Vec<RetentionRule> = Vec::new();
    assert(views(rules@) =~= Seq::<Rule>::empty());
    assert(views(rules@) + given(args.keep_last_rule()) =~= given(args.keep_last_rule()));
    add_rule(
        &mut rules,
        match args.keep_last {
            Some(n) => Some(RetentionRule::KeepLast(n)),
            None => None,
        },
    );
    add_rule(
        &mut rules,
        match args.keep_within {
            Some(d) => Some(RetentionRule::KeepWithin(d)),
            None => None,
        },
    );
    add_rule(
        &mut rules,
        match args.keep_yearly {
            Some(n) => Some(RetentionRule::KeepYearly(n)),
            None => None,
        },
    );
    add_rule(
        &mut rules,
        match args.keep_monthly {
            Some(n) => Some(RetentionRule::KeepMonthly(n)),
            None => None,
        },
    );
    add_rule(
        &mut rules,
        match args.keep_weekly {
            Some(n) => Some(RetentionRule::KeepWeekly(n)),
            None => None,
        },
    );
    add_rule(
        &mut rules,
        match args.keep_daily {
            Some(n) => Some(RetentionRule::KeepDaily(n)),
            None => None,
        },
    );
    add_rule(
        &mut rules,
        match args.keep_hourly {
            Some(n) => Some(RetentionRule::KeepHourly(n)),
            None => None,
        },
    );
    add_rule(
        &mut rules,
        match &args.keep_tags {
            Some(list) => Some(RetentionRule::KeepTags(tags::parse_tags(Some(list.as_str())))),
            None => None,
        },
    );
    assert(views(rules@) == rules_given(*args));
    assert(views(rules@).len() == rules@.len());
    if rules.len() == 0 {
        return Err(ForgetError::InvalidRule("at least one retention rule must be used.".to_owned()));
    }
    Ok(rules)
}

/// How the snapshots to forget are chosen.
#[derive(Debug)]
pub enum ForgetChoice {
    /// They are named on the command line.
    Named,
    /// They are those that no rule keeps.
    Rules(Vec<RetentionRule>),
}

/// How the snapshots to forget are chosen: where some are named, only those, else
/// by the rules.
pub fn forget_choice(args: &CmdArgs) -> (r: Result<ForgetChoice, ForgetError>)
    ensures
        match r {
            Ok(ForgetChoice::Named) => args.forget@.len() > 0,
            Ok(ForgetChoice::Rules(rules)) => args.forget@.len() == 0 && rules@.len() > 0 && views(rules@)
                == rules_given(*args) && in_order(rules@),
            Err(e) => args.forget@.len() == 0 && rules_given(*args).len() == 0 && (
            e matches ForgetError::InvalidRule(s) && s@ == "at least one retention rule must be used."@),
        },
{
    if args.forget.len() > 0 {
        return Ok(ForgetChoice::Named);
    }
    match retention_rules(args) {
        Ok(rules) => Ok(ForgetChoice::Rules(rules)),
        Err(e) => Err(e),
    }
}

// ---------------------------------------------------------------------------
// The snapshots that go
// ---------------------------------------------------------------------------

/// The snapshots of a list that are among those with the given identifiers.
pub fn only_those(entries: &Vec<SnapshotEntry>, ids: &Vec<ID>) -> (r: Vec<SnapshotEntry>)
    ensures
        r@ == snapshots::chosen(entries@, |e: SnapshotEntry| ids@.contains(e.id)),
{
    let set = snapshots::id_set(ids);
    let r = snapshots::part(entries, &set).0;
    proof {
        let a = |e: SnapshotEntry| set@.contains(e.id);
        let b = |e: SnapshotEntry| ids@.contains(e.id);
        assert(a =~= b);
    }
    r
}

/// The snapshots of a list that fulfil what was asked of their tags and of their
/// hosts, where anything was.
pub open spec fn asked_for(
    entries: Seq<SnapshotEntry>,
    tagged: Option<Vec<ID>>,
    of_hosts: Option<Vec<ID>>,
) -> Seq<SnapshotEntry> {
    let by_tag = match tagged {
        Some(ids) => snapshots::chosen(entries, |e: SnapshotEntry| ids@.contains(e.id)),
        None => entries,
    };
    match of_hosts {
        Some(ids) => snapshots::chosen(by_tag, |e: SnapshotEntry| ids@.contains(e.id)),
        None => by_tag,
    }
}

/// The snapshots under consideration, from the oldest to the newest. `tagged` are
/// those with the tags that were asked for, `of_hosts` those of the hosts.
pub fn considered(entries: Vec<SnapshotEntry>, tagged: &Option<Vec<ID>>, of_hosts: &Option<Vec<ID>>) -> (r: Vec<
    SnapshotEntry,
>)
    ensures
        snapshots::by_time(r@),
        r@.to_multiset() == asked_for(entries@, *tagged, *of_hosts).to_multiset(),
{
    let by_tag = match tagged {
        Some(ids) => only_those(&entries, ids),
        None => entries,
    };
    let by_host = match of_hosts {
        Some(ids) => only_those(&by_tag, ids),
        None => by_tag,
    };
    snapshots::sort_by_time(by_host)
}

/// The identifiers in a list but for those to be forgotten.
pub open spec fn all_but(entries: Seq<SnapshotEntry>, forget: Seq<ID>) -> Set<ID> {
    Set::new(|id: ID| !forget.contains(id) && has_id(entries, id))
}

/// Whether a list holds the snapshot with an identifier.
pub open spec fn has_id(entries: Seq<SnapshotEntry>, id: ID) -> bool {
    exists|i: int| 0 <= i < entries.len() && (#[trigger] entries[i]).id == id
}

/// The snapshots to keep where those to be forgotten are named.
pub fn keep_all_but(entries: &Vec<SnapshotEntry>, forget: &Vec<ID>) -> (r: IdSet)
    ensures
        r@ == all_but(entries@, forget@),
{
    let forgotten = snapshots::id_set(forget);
    let mut keep = IdSet::new();
    let mut i: usize = 0;
    while i < entries.len()
        invariant
            i <= entries@.len(),
            forgotten@ == forget@.to_set(),
            forall|x: ID| #[trigger]
                keep@.contains(x) <==> !forget@.contains(x) && has_id(entries@.take(i as int), x),
        decreases entries@.len() - i,
    {
        let ghost had = keep@;
        let e = entries[i];
        if !forgotten.contains(&e.id) {
            keep.insert(e.id);
        }
        proof {
            let sofar = entries@.take(i as int);
            let more = entries@.take(i + 1);
            assert forall|x: ID| #[trigger] has_id(more, x) <==> has_id(sofar, x) || x == e.id by {
                if has_id(sofar, x) {
                    let k = choose|k: int| 0 <= k < sofar.len() && (#[trigger] sofar[k]).id == x;
                    assert(more[k].id == x);
                }
                if has_id(more, x) {
                    let k = choose|k: int| 0 <= k < more.len() && (#[trigger] more[k]).id == x;
                    if k < i {
                        assert(sofar[k].id == x);
                    }
                }
                if x == e.id {
                    assert(more[i as int].id == x);
                }
            }
            assert(forgotten@.contains(e.id) == forget@.contains(e.id));
        }
        i = i + 1;
    }
    assert(entries@.take(entries@.len() as int) =~= entries@);
    assert(keep@ =~= all_but(entries@, forget@));
    keep
}

/// Whether a lookup found the snapshot of every name.
pub open spec fn all_found(found: Seq<Option<ID>>) -> bool {
    forall|i: int| 0 <= i < found.len() ==> (#[trigger] found[i]) is Some
}

/// The identifiers that were found.
pub open spec fn ids_found(found: Seq<Option<ID>>) -> Seq<ID> {
    found.map_values(|f: Option<ID>| f.unwrap())
}

/// Whether the first name without a snapshot is the one at a place.
pub open spec fn first_missing(found: Seq<Option<ID>>, i: int) -> bool {
    &&& 0 <= i < found.len()
    &&& found[i] is None
    &&& forall|j: int| 0 <= j < i ==> (#[trigger] found[j]) is Some
}

/// Whether names are still looked up: not after one that found nothing.
pub fn looks_on(found: &Vec<Option<ID>>) -> (r: bool)
    ensures
        r == all_found(found@),
{
    let mut i: usize = 0;
    while i < found.len()
        invariant
            i <= found@.len(),
            forall|j: int| 0 <= j < i ==> (#[trigger] found@[j]) is Some,
        decreases found@.len() - i,
    {
        if found[i].is_none() {
            assert(found@[i as int] is None);
            return false;
        }
        i = i + 1;
    }
    true
}

/// The snapshots that are named on the command line. `found` holds what the lookup
/// of each name gave. The first name that found nothing is told of.
pub fn named_ids(names: &Vec<String>, found: &Vec<Option<ID>>) -> (r: Result<Vec<ID>, ForgetError>)
    requires
        names@.len() == found@.len(),
    ensures
        match r {
            Ok(ids) => all_found(found@) && ids@ == ids_found(found@),
            Err(e) => exists|i: int| #[trigger]
                first_missing(found@, i) && (e matches ForgetError::ForgetFailed(s) && s@ == "snapshot not found: "@
                    + names@[i]@),
        },
{
    let mut ids: Vec<ID> = Vec::new();
    let mut i: usize = 0;
    while i < found.len()
        invariant
            i <= found@.len(),
            names@.len() == found@.len(),
            ids@.len() == i,
            forall|j: int| 0 <= j < i ==> (#[trigger] found@[j]) is Some,
            forall|j: int| 0 <= j < i ==> #[trigger] ids@[j] == found@[j].unwrap(),
        decreases found@.len() - i,
    {
        match found[i] {
            Some(id) => ids.push(id),
            None => {
                assert(first_missing(found@, i as int));
                return Err(not_found(names[i].as_str()));
            },
        }
        i = i + 1;
    }
    assert(ids@ =~= ids_found(found@));
    Ok(ids)
}

/// How a snapshot goes.
#[derive(Debug, Copy, Clone, PartialEq, Eq, Structural)]
pub enum Removal {
    /// It is deleted at once.
    Delete(ID),
    /// It is marked, to be deleted later.
    Mark(ID),
}

/// What happens to the snapshots under consideration.
#[derive(Debug)]
pub struct ForgetPlan {
    /// Those that stay.
    pub kept: Vec<SnapshotEntry>,
    /// Those that go.
    pub removed: Vec<SnapshotEntry>,
    /// What is to be done in the repository, in this order.
    pub removals: Vec<Removal>,
}

/// How a snapshot goes: `force` deletes it at once.
pub open spec fn removal(e: SnapshotEntry, force: bool) -> Removal {
    if force {
        Removal::Delete(e.id)
    } else {
        Removal::Mark(e.id)
    }
}

/// What is to be done in the repository: nothing on a dry run, else each snapshot
/// that goes is removed.
pub open spec fn removals_of(removed: Seq<SnapshotEntry>, force: bool, dry_run: bool) -> Seq<Removal> {
    if dry_run {
        Seq::empty()
    } else {
        removed.map_values(|e: SnapshotEntry| removal(e, force))
    }
}

/// The snapshots that stay.
pub open spec fn kept_of(entries: Seq<SnapshotEntry>, keep: Set<ID>) -> Seq<SnapshotEntry> {
    snapshots::chosen(entries, |e: SnapshotEntry| keep.contains(e.id))
}

/// The snapshots that go.
pub open spec fn removed_of(entries: Seq<SnapshotEntry>, keep: Set<ID>) -> Seq<SnapshotEntry> {
    snapshots::chosen(entries, |e: SnapshotEntry| !keep.contains(e.id))
}

/// Decides what happens to the snapshots under consideration: those that are not
/// to be kept go.
pub fn forget_plan(entries: &Vec<SnapshotEntry>, keep: &IdSet, force: bool, dry_run: bool) -> (r: ForgetPlan)
    ensures
        r.kept@ == kept_of(entries@, keep@),
        r.removed@ == removed_of(entries@, keep@),
        r.removals@ == removals_of(r.removed@, force, dry_run),
{
    let (kept, removed) = snapshots::part(entries, keep);
    let mut removals: Vec<Removal> = Vec::new();
    if !dry_run {
        let mut i: usize = 0;
        while i < removed.len()
            invariant
                i <= removed@.len(),
                removals@.len() == i,
                forall|k: int| 0 <= k < i ==> #[trigger] removals@[k] == removal(removed@[k], force),
            decreases removed@.len() - i,
        {
            let id = removed[i].id;
            if force {
                removals.push(Removal::Delete(id));
            } else {
                removals.push(Removal::Mark(id));
            }
            i = i + 1;
        }
    }
    assert(removals@ =~= removals_of(removed@, force, dry_run));
    ForgetPlan { kept, removed, removals }
}

/// Decides what happens where the snapshots to forget are named: those of them that
/// are under consideration go, whatever the rules would keep. Where a name found
/// nothing there is no plan, and nothing goes.
pub fn plan_by_name(
    entries: &Vec<SnapshotEntry>,
    names: &Vec<String>,
    found: &Vec<Option<ID>>,
    force: bool,
    dry_run: bool,
) -> (r: Result<ForgetPlan, ForgetError>)
    requires
        names@.len() == found@.len(),
    ensures
        match r {
            Ok(plan) => {
                let keep = all_but(entries@, ids_found(found@));
                &&& all_found(found@)
                &&& plan.kept@ == kept_of(entries@, keep)
                &&& plan.removed@ == removed_of(entries@, keep)
                &&& plan.removals@ == removals_of(plan.removed@, force, dry_run)
            },
            Err(e) => exists|i: int| #[trigger]
                first_missing(found@, i) && (e matches ForgetError::ForgetFailed(s) && s@ == "snapshot not found: "@
                    + names@[i]@),
        },
{
    match named_ids(names, found) {
        Ok(ids) => {
            let keep = keep_all_but(entries, &ids);
            Ok(forget_plan(entries, &keep, force, dry_run))
        },
        Err(e) => Err(e),
    }
}

/// A step of the command that can fail.
#[derive(Debug, Copy, Clone, PartialEq, Eq, Structural)]
pub enum ForgetStep {
    /// Loading the snapshots.
    Load,
    /// Deleting a snapshot.
    Delete,
    /// Marking a snapshot.
    Mark,
    /// Collecting the garbage.
    Clean,
}

/// What is said where a step fails.
pub open spec fn step_failed(step: ForgetStep) -> Seq<char> {
    match step {
        ForgetStep::Load => "failed to load snapshots: "@,
        ForgetStep::Delete => "failed to delete snapshot: "@,
        ForgetStep::Mark => "failed to mark snapshot for deletion: "@,
        ForgetStep::Clean => "gc failed: "@,
    }
}

/// The error of a step that fails.
pub fn step_error(step: ForgetStep, why: &str) -> (r: ForgetError)
    ensures
        r matches ForgetError::ForgetFailed(s) && s@ == step_failed(step) + why@,
{
    let what: &str = match step {
        ForgetStep::Load => "failed to load snapshots: ",
        ForgetStep::Delete => "failed to delete snapshot: ",
        ForgetStep::Mark => "failed to mark snapshot for deletion: ",
        ForgetStep::Clean => "gc failed: ",
    };
    ForgetError::ForgetFailed(text::join2(what, why))
}

/// The error where no snapshot begins like a name on the command line.
pub fn not_found(prefix: &str) -> (r: ForgetError)
    ensures
        r matches ForgetError::ForgetFailed(s) && s@ == "snapshot not found: "@ + prefix@,
{
    ForgetError::ForgetFailed(text::join2("snapshot not found: ", prefix))
}

/// The last line of the report. `count` says how many snapshots go.
pub fn closing_line(dry_run: bool, count: &str) -> (r: String)
    ensures
        r@ == (if dry_run {
            "This would remove "@
        } else {
            "Removed "@
        }) + count@,
{
    if dry_run {
        text::join2("This would remove ", count)
    } else {
        text::join2("Removed ", count)
    }
}

/// What the work came to, once it is reported: an error where the user broke it
/// off.
pub fn forget_ended(interrupted: bool) -> (r: Result<(), ForgetError>)
    ensures
        r is Err <==> interrupted,
        r matches Err(e) ==> e is Interrupted,
{
    if interrupted {
        Err(ForgetError::Interrupted)
    } else {
        Ok(())
    }
}

/// What the garbage collector is run with.
#[derive(Debug, Copy, Clone)]
pub struct GcArgs {
    /// Garbage to tolerate in a pack, in percent.
    pub tolerance: Single,
    /// Whether nothing is to be changed.
    pub dry_run: bool,
    /// Whether packs are left as they are.
    pub no_repack: bool,
}

/// What the garbage collector is run with afterwards, if it is asked for.
pub open spec fn cleaned_with(args: CmdArgs, defaults: Defaults) -> Option<GcArgs> {
    if args.run_gc {
        Some(
            GcArgs {
                tolerance: crate::global::or_else(args.tolerance, defaults.gc_tolerance_pct),
                dry_run: args.dry_run,
                no_repack: false,
            },
        )
    } else {
        None
    }
}

/// What the garbage collector is run with afterwards, if it is asked for.
pub fn gc_args(args: &CmdArgs, defaults: &Defaults) -> (r: Option<GcArgs>)
    ensures
        r == cleaned_with(*args, *defaults),
        r is Some <==> args.run_gc,
        r matches Some(gc) ==> gc.tolerance == crate::global::or_else(args.tolerance, defaults.gc_tolerance_pct)
            && gc.dry_run == args.dry_run && !gc.no_repack,
{
    if args.run_gc {
        Some(
            GcArgs {
                tolerance: args.tolerance.unwrap_or(defaults.gc_tolerance_pct),
                dry_run: args.dry_run,
                no_repack: false,
            },
        )
    } else {
        None
    }
}

// ---------------------------------------------------------------------------
// Laws
// ---------------------------------------------------------------------------

/// No way of asking for it keeps zero snapshots: every number that is accepted is
/// above zero, on the command line and in the configuration file.
pub proof fn law_retention_is_positive(s: Seq<char>, opt: Option<RetentionValue>)
    ensures
        retention_number(s) matches Ok(n) ==> n > 0,
        retention_value(opt) matches Ok(Some(n)) ==> n > 0,
{
}

/// A period rule is never for a single year, month, week, day or hour, nor for none,
/// neither on the command line nor in the configuration file; and any number above
/// one is accepted in both.
pub proof fn law_periods_are_more_than_one(s: Seq<char>, opt: Option<RetentionValue>, k: usize)
    ensures
        period_number(s) matches Ok(n) ==> n > 1,
        period_value(opt) matches Ok(Some(n)) ==> n > 1,
        1 < k <= isize::MAX ==> period_number(text::decimal_int(k as int)) == Ok::<usize, Seq<char>>(k),
        1 < k ==> period_value(Some(RetentionValue::Number(k))) == Ok::<Option<usize>, Seq<char>>(Some(k)),
{
    if 1 < k <= isize::MAX {
        text::law_signed_decimal_reads_back(k as int);
        reveal_strlit("all");
        let d = text::decimal_int(k as int);
        if d == "all"@ {
            assert(text::signed(d) == Some(k as int));
            assert(d[0] == 'a');
        }
    }
}

/// No age that is accepted keeps nothing.
pub proof fn law_keep_within_is_positive(s: Seq<char>)
    ensures
        keep_within(s) matches Ok(d) ==> d.millis > 0,
{
}

/// What the command line gives stays, and what it leaves open is taken from the
/// configuration file; the switches are those of the command line alone.
pub proof fn law_command_line_comes_first(cli: CmdArgs, cfg: CmdArgs)
    ensures
        ({
            let m = cli.merged(cfg);
            &&& m.force == cli.force
            &&& m.dry_run == cli.dry_run
            &&& m.run_gc == cli.run_gc
            &&& m.hook_args == cli.hook_args
            &&& m.forget == (if cli.forget@.len() > 0 {
                cli.forget
            } else {
                cfg.forget
            })
            &&& m.hosts == (if cli.hosts@.len() > 0 {
                cli.hosts
            } else {
                cfg.hosts
            })
            &&& cli.tags_str is Some ==> m.tags_str == cli.tags_str
            &&& cli.tags_str is None ==> m.tags_str == cfg.tags_str
            &&& cli.keep_last is Some ==> m.keep_last == cli.keep_last
            &&& cli.keep_last is None ==> m.keep_last == cfg.keep_last
            &&& cli.keep_within is Some ==> m.keep_within == cli.keep_within
            &&& cli.keep_within is None ==> m.keep_within == cfg.keep_within
            &&& cli.keep_yearly is Some ==> m.keep_yearly == cli.keep_yearly
            &&& cli.keep_yearly is None ==> m.keep_yearly == cfg.keep_yearly
            &&& cli.keep_monthly is Some ==> m.keep_monthly == cli.keep_monthly
            &&& cli.keep_monthly is None ==> m.keep_monthly == cfg.keep_monthly
            &&& cli.keep_weekly is Some ==> m.keep_weekly == cli.keep_weekly
            &&& cli.keep_weekly is None ==> m.keep_weekly == cfg.keep_weekly
            &&& cli.keep_daily is Some ==> m.keep_daily == cli.keep_daily
            &&& cli.keep_daily is None ==> m.keep_daily == cfg.keep_daily
            &&& cli.keep_hourly is Some ==> m.keep_hourly == cli.keep_hourly
            &&& cli.keep_hourly is None ==> m.keep_hourly == cfg.keep_hourly
            &&& cli.keep_tags is Some ==> m.keep_tags == cli.keep_tags
            &&& cli.keep_tags is None ==> m.keep_tags == cfg.keep_tags
            &&& cli.keep_min is Some ==> m.keep_min == cli.keep_min
            &&& cli.keep_min is None ==> m.keep_min == cfg.keep_min
            &&& cli.tolerance is Some ==> m.tolerance == cli.tolerance
            &&& cli.tolerance is None ==> m.tolerance == cfg.tolerance
        }),
{
}

/// Every snapshot under consideration stays or goes, none does both, and none
/// that was not considered does either.
pub proof fn law_stays_or_goes(entries: Seq<SnapshotEntry>, keep: Set<ID>)
    ensures
        kept_of(entries, keep).to_multiset().add(removed_of(entries, keep).to_multiset()) == entries.to_multiset(),
        kept_of(entries, keep).len() + removed_of(entries, keep).len() == entries.len(),
        forall|e: SnapshotEntry| #[trigger]
            kept_of(entries, keep).contains(e) <==> entries.contains(e) && keep.contains(e.id),
        forall|e: SnapshotEntry| #[trigger]
            removed_of(entries, keep).contains(e) <==> entries.contains(e) && !keep.contains(e.id),
    decreases entries.len(),
{
    broadcast use vstd::seq_lib::group_to_multiset_ensures;

    let stays = |e: SnapshotEntry| keep.contains(e.id);
    let goes = |e: SnapshotEntry| !keep.contains(e.id);
    reveal(Seq::filter);
    if entries.len() > 0 {
        let most = entries.drop_last();
        let last = entries.last();
        law_stays_or_goes(most, keep);
        assert(entries =~= most.push(last));
        assert(most.filter(stays) == kept_of(most, keep));
        assert(most.filter(goes) == removed_of(most, keep));
        assert(kept_of(entries, keep).to_multiset().add(removed_of(entries, keep).to_multiset())
            =~= entries.to_multiset());
    } else {
        assert(entries.filter(stays).to_multiset().add(entries.filter(goes).to_multiset()) =~= entries.to_multiset());
    }
    assert forall|e: SnapshotEntry| #[trigger]
        kept_of(entries, keep).contains(e) <==> entries.contains(e) && keep.contains(e.id) by {
        assert(entries.filter(stays).contains(e) <==> entries.contains(e) && stays(e)) by {
            lemma_filter_holds(entries, stays, e);
        }
    }
    assert forall|e: SnapshotEntry| #[trigger]
        removed_of(entries, keep).contains(e) <==> entries.contains(e) && !keep.contains(e.id) by {
        assert(entries.filter(goes).contains(e) <==> entries.contains(e) && goes(e)) by {
            lemma_filter_holds(entries, goes, e);
        }
    }
}

proof fn lemma_filter_holds(s: Seq<SnapshotEntry>, wanted: spec_fn(SnapshotEntry) -> bool, e: SnapshotEntry)
    ensures
        s.filter(wanted).contains(e) <==> s.contains(e) && wanted(e),
    decreases s.len(),
{
    reveal(Seq::filter);
    if s.len() > 0 {
        let most = s.drop_last();
        let last = s.last();
        lemma_filter_holds(most, wanted, e);
        assert(s =~= most.push(last));
        lemma_push_contains(most, last, e);
        lemma_push_contains(most.filter(wanted), last, e);
    }
}

proof fn lemma_push_contains(s: Seq<SnapshotEntry>, last: SnapshotEntry, e: SnapshotEntry)
    ensures
        s.push(last).contains(e) <==> s.contains(e) || e == last,
{
    if s.contains(e) {
        let k = choose|k: int| 0 <= k < s.len() && s[k] == e;
        assert(s.push(last)[k] == e);
    }
    if e == last {
        assert(s.push(last)[s.len() as int] == e);
    }
}

/// Where snapshots are named, exactly those of them that are under consideration
/// go.
pub proof fn law_named_snapshots_go(entries: Seq<SnapshotEntry>, forget: Seq<ID>)
    ensures
        forall|e: SnapshotEntry| #[trigger]
            removed_of(entries, all_but(entries, forget)).contains(e) <==> entries.contains(e) && forget.contains(e.id),
{
    let keep = all_but(entries, forget);
    law_stays_or_goes(entries, keep);
    assert forall|e: SnapshotEntry| #[trigger]
        removed_of(entries, keep).contains(e) <==> entries.contains(e) && forget.contains(e.id) by {
        if entries.contains(e) {
            let k = choose|k: int| 0 <= k < entries.len() && entries[k] == e;
            assert(entries[k].id == e.id);
            assert(has_id(entries, e.id));
        }
    }
}

/// On a dry run nothing is done in the repository; else one thing for each
/// snapshot that goes, and nothing for any other.
pub proof fn law_what_is_done(removed: Seq<SnapshotEntry>, force: bool, dry_run: bool)
    ensures
        dry_run ==> removals_of(removed, force, dry_run).len() == 0,
        !dry_run ==> removals_of(removed, force, dry_run).len() == removed.len(),
        !dry_run && force ==> forall|i: int|
            0 <= i < removed.len() ==> #[trigger] removals_of(removed, force, dry_run)[i] == Removal::Delete(
                removed[i].id,
            ),
        !dry_run && !force ==> forall|i: int|
            0 <= i < removed.len() ==> #[trigger] removals_of(removed, force, dry_run)[i] == Removal::Mark(
                removed[i].id,
            ),
{
}

/// How often a snapshot is left where only some are let through.
proof fn lemma_filter_counts(s: Seq<SnapshotEntry>, wanted: spec_fn(SnapshotEntry) -> bool, e: SnapshotEntry)
    ensures
        s.filter(wanted).to_multiset().count(e) == (if wanted(e) {
            s.to_multiset().count(e)
        } else {
            0
        }),
    decreases s.len(),
{
    broadcast use vstd::seq_lib::group_to_multiset_ensures;

    reveal(Seq::filter);
    if s.len() > 0 {
        let most = s.drop_last();
        lemma_filter_counts(most, wanted, e);
        assert(s =~= most.push(s.last()));
    }
}

/// A snapshot is under consideration exactly where it is in the list, has one of the
/// tags that were asked for, if any were, and is of one of the hosts that were asked
/// for, if any were: either condition holds whether or not the other was set. Each is
/// considered as often as the list has it, and the older ones first.
pub proof fn law_only_what_was_asked_for_is_considered(
    entries: Seq<SnapshotEntry>,
    tagged: Option<Vec<ID>>,
    of_hosts: Option<Vec<ID>>,
    r: Seq<SnapshotEntry>,
)
    requires
        snapshots::by_time(r),
        r.to_multiset() == asked_for(entries, tagged, of_hosts).to_multiset(),
    ensures
        forall|e: SnapshotEntry| #[trigger]
            r.contains(e) <==> {
                &&& entries.contains(e)
                &&& (tagged is Some ==> tagged.unwrap()@.contains(e.id))
                &&& (of_hosts is Some ==> of_hosts.unwrap()@.contains(e.id))
            },
        forall|e: SnapshotEntry|
            r.contains(e) ==> #[trigger] r.to_multiset().count(e) == entries.to_multiset().count(e),
        forall|i: int, j: int| 0 <= i < j < r.len() ==> (#[trigger] r[i]).timestamp <= (#[trigger] r[j]).timestamp,
        tagged is None && of_hosts is None ==> r.to_multiset() == entries.to_multiset(),
{
    broadcast use vstd::seq_lib::group_to_multiset_ensures;

    assert forall|e: SnapshotEntry| true implies #[trigger] r.to_multiset().count(e) == (if (tagged is Some
        ==> tagged.unwrap()@.contains(e.id)) && (of_hosts is Some ==> of_hosts.unwrap()@.contains(e.id)) {
        entries.to_multiset().count(e)
    } else {
        0
    }) by {
        let by_tag = match tagged {
            Some(ids) => snapshots::chosen(entries, |e: SnapshotEntry| ids@.contains(e.id)),
            None => entries,
        };
        if let Some(ids) = tagged {
            lemma_filter_counts(entries, |e: SnapshotEntry| ids@.contains(e.id), e);
        }
        if let Some(ids) = of_hosts {
            lemma_filter_counts(by_tag, |e: SnapshotEntry| ids@.contains(e.id), e);
        }
    }
    assert forall|e: SnapshotEntry| #[trigger] r.contains(e) <==> {
        &&& entries.contains(e)
        &&& (tagged is Some ==> tagged.unwrap()@.contains(e.id))
        &&& (of_hosts is Some ==> of_hosts.unwrap()@.contains(e.id))
    } by {
        assert(r.contains(e) <==> r.to_multiset().count(e) > 0);
        assert(entries.contains(e) <==> entries.to_multiset().count(e) > 0);
    }
}

/// Those that stay and those that go are told of in the order in which they were
/// considered.
pub proof fn law_order_is_kept(entries: Seq<SnapshotEntry>, keep: Set<ID>)
    requires
        forall|i: int, j: int|
            0 <= i < j < entries.len() ==> (#[trigger] entries[i]).timestamp <= (#[trigger] entries[j]).timestamp,
    ensures
        forall|i: int, j: int|
            0 <= i < j < kept_of(entries, keep).len() ==> (#[trigger] kept_of(entries, keep)[i]).timestamp <= (
            #[trigger] kept_of(entries, keep)[j]).timestamp,
        forall|i: int, j: int|
            0 <= i < j < removed_of(entries, keep).len() ==> (#[trigger] removed_of(entries, keep)[i]).timestamp <= (
            #[trigger] removed_of(entries, keep)[j]).timestamp,
{
    lemma_filter_in_order(entries, |e: SnapshotEntry| keep.contains(e.id));
    lemma_filter_in_order(entries, |e: SnapshotEntry| !keep.contains(e.id));
}

proof fn lemma_filter_in_order(s: Seq<SnapshotEntry>, wanted: spec_fn(SnapshotEntry) -> bool)
    requires
        forall|i: int, j: int| 0 <= i < j < s.len() ==> (#[trigger] s[i]).timestamp <= (#[trigger] s[j]).timestamp,
    ensures
        forall|i: int, j: int|
            0 <= i < j < s.filter(wanted).len() ==> (#[trigger] s.filter(wanted)[i]).timestamp <= (
            #[trigger] s.filter(wanted)[j]).timestamp,
    decreases s.len(),
{
    reveal(Seq::filter);
    if s.len() > 0 {
        let most = s.drop_last();
        let f = most.filter(wanted);
        assert forall|i: int, j: int| 0 <= i < j < most.len() implies (#[trigger] most[i]).timestamp <= (
        #[trigger] most[j]).timestamp by {
            assert(s[i] == most[i] && s[j] == most[j]);
        }
        lemma_filter_in_order(most, wanted);
        assert forall|i: int| 0 <= i < f.len() implies (#[trigger] f[i]).timestamp <= s.last().timestamp by {
            lemma_filter_holds(most, wanted, f[i]);
            assert(f.contains(f[i]));
            let k = choose|k: int| 0 <= k < most.len() && most[k] == f[i];
            assert(s[k] == f[i] && s[s.len() - 1] == s.last());
        }
    }
}

/// There is a rule exactly for each option that sets one, with the value that the
/// option has, and there are as many rules as options that set one.
pub proof fn law_each_option_gives_its_rule(args: CmdArgs, n: usize, d: Duration, t: Set<Seq<char>>)
    ensures
        rules_given(args).contains(Rule::Last(n)) <==> args.keep_last == Some(n),
        rules_given(args).contains(Rule::Within(d)) <==> args.keep_within == Some(d),
        rules_given(args).contains(Rule::Yearly(n)) <==> args.keep_yearly == Some(n),
        rules_given(args).contains(Rule::Monthly(n)) <==> args.keep_monthly == Some(n),
        rules_given(args).contains(Rule::Weekly(n)) <==> args.keep_weekly == Some(n),
        rules_given(args).contains(Rule::Daily(n)) <==> args.keep_daily == Some(n),
        rules_given(args).contains(Rule::Hourly(n)) <==> args.keep_hourly == Some(n),
        rules_given(args).contains(Rule::Tags(t)) <==> args.keep_tags is Some && t == tags::tags_named(
            args.keep_tags.unwrap()@,
        ),
        rules_given(args).len() == (if args.keep_last is Some {
            1int
        } else {
            0
        }) + (if args.keep_within is Some {
            1int
        } else {
            0
        }) + (if args.keep_yearly is Some {
            1int
        } else {
            0
        }) + (if args.keep_monthly is Some {
            1int
        } else {
            0
        }) + (if args.keep_weekly is Some {
            1int
        } else {
            0
        }) + (if args.keep_daily is Some {
            1int
        } else {
            0
        }) + (if args.keep_hourly is Some {
            1int
        } else {
            0
        }) + (if args.keep_tags is Some {
            1int
        } else {
            0
        }),
{
    lemma_rule_in(args, Rule::Last(n));
    lemma_rule_in(args, Rule::Within(d));
    lemma_rule_in(args, Rule::Yearly(n));
    lemma_rule_in(args, Rule::Monthly(n));
    lemma_rule_in(args, Rule::Weekly(n));
    lemma_rule_in(args, Rule::Daily(n));
    lemma_rule_in(args, Rule::Hourly(n));
    lemma_rule_in(args, Rule::Tags(t));
}

proof fn lemma_rule_in(args: CmdArgs, x: Rule)
    ensures
        rules_given(args).contains(x) <==> {
            ||| args.keep_last_rule() == Some(x)
            ||| args.keep_within_rule() == Some(x)
            ||| args.keep_yearly_rule() == Some(x)
            ||| args.keep_monthly_rule() == Some(x)
            ||| args.keep_weekly_rule() == Some(x)
            ||| args.keep_daily_rule() == Some(x)
            ||| args.keep_hourly_rule() == Some(x)
            ||| args.keep_tags_rule() == Some(x)
        },
{
    let none = Seq::<Rule>::empty();
    let s1 = given(args.keep_last_rule());
    let s2 = s1 + given(args.keep_within_rule());
    let s3 = s2 + given(args.keep_yearly_rule());
    let s4 = s3 + given(args.keep_monthly_rule());
    let s5 = s4 + given(args.keep_weekly_rule());
    let s6 = s5 + given(args.keep_daily_rule());
    let s7 = s6 + given(args.keep_hourly_rule());
    assert(none + s1 =~= s1);
    lemma_one_more_rule(none, args.keep_last_rule(), x);
    lemma_one_more_rule(s1, args.keep_within_rule(), x);
    lemma_one_more_rule(s2, args.keep_yearly_rule(), x);
    lemma_one_more_rule(s3, args.keep_monthly_rule(), x);
    lemma_one_more_rule(s4, args.keep_weekly_rule(), x);
    lemma_one_more_rule(s5, args.keep_daily_rule(), x);
    lemma_one_more_rule(s6, args.keep_hourly_rule(), x);
    lemma_one_more_rule(s7, args.keep_tags_rule(), x);
}

proof fn lemma_one_more_rule(sofar: Seq<Rule>, rule: Option<Rule>, x: Rule)
    ensures
        (sofar + given(rule)).contains(x) <==> sofar.contains(x) || rule == Some(x),
{
    let all = sofar + given(rule);
    if sofar.contains(x) {
        let k = choose|k: int| 0 <= k < sofar.len() && sofar[k] == x;
        assert(all[k] == x);
    }
    if rule == Some(x) {
        assert(all[sofar.len() as int] == x);
    }
}

/// A rule is seen as what it says, and no rule is seen as another.
pub proof fn law_rules_are_seen_as_they_are(
    rules: Seq<RetentionRule>,
    i: int,
    n: usize,
    d: Duration,
    t: Set<Seq<char>>,
)
    requires
        0 <= i < rules.len(),
    ensures
        views(rules).len() == rules.len(),
        views(rules)[i] == Rule::Last(n) <==> rules[i] == RetentionRule::KeepLast(n),
        views(rules)[i] == Rule::Within(d) <==> rules[i] == RetentionRule::KeepWithin(d),
        views(rules)[i] == Rule::Yearly(n) <==> rules[i] == RetentionRule::KeepYearly(n),
        views(rules)[i] == Rule::Monthly(n) <==> rules[i] == RetentionRule::KeepMonthly(n),
        views(rules)[i] == Rule::Weekly(n) <==> rules[i] == RetentionRule::KeepWeekly(n),
        views(rules)[i] == Rule::Daily(n) <==> rules[i] == RetentionRule::KeepDaily(n),
        views(rules)[i] == Rule::Hourly(n) <==> rules[i] == RetentionRule::KeepHourly(n),
        views(rules)[i] == Rule::Tags(t) <==> (rules[i] matches RetentionRule::KeepTags(s) && s@ == t),
{
}

/// What a number of snapshots to keep reads as: `all` as any number, a number above
/// zero as itself, on the command line and in the configuration file alike; and
/// nothing else is accepted.
pub proof fn law_retention_reads_as_its_number(s: Seq<char>, t: String, n: usize, k: int)
    ensures
        retention_number(s) == Ok::<usize, Seq<char>>(n) <==> {
            ||| s == "all"@ && n == usize::MAX
            ||| s != "all"@ && text::signed(s) == Some(n as int) && 0 < n <= isize::MAX
        },
        0 < k <= isize::MAX ==> retention_number(text::decimal_int(k)) == Ok::<usize, Seq<char>>(k as usize),
        k <= 0 ==> retention_number(text::decimal_int(k)) is Err,
        retention_value(Some(RetentionValue::Number(n))) == (if n > 0 {
            Ok::<Option<usize>, Seq<char>>(Some(n))
        } else {
            Err("retention number must be greater than 0"@)
        }),
        retention_value(None) == Ok::<Option<usize>, Seq<char>>(None),
        match retention_value(Some(RetentionValue::Text(t))) {
            Ok(v) => v is Some && retention_number(t@) == Ok::<usize, Seq<char>>(v.unwrap()),
            Err(e) => retention_number(t@) == Err::<usize, Seq<char>>(e),
        },
{
    text::law_signed_decimal_reads_back(k);
    lemma_numbers_are_no_words(k);
}

/// The same of years, months, weeks, days and hours, of which there have to be more
/// than one.
pub proof fn law_period_reads_as_its_number(s: Seq<char>, t: String, n: usize, k: int)
    ensures
        period_number(s) == Ok::<usize, Seq<char>>(n) <==> {
            ||| s == "all"@ && n == usize::MAX
            ||| s != "all"@ && text::signed(s) == Some(n as int) && 1 < n <= isize::MAX
        },
        k <= 1 ==> period_number(text::decimal_int(k)) is Err,
        n <= 1 ==> period_value(Some(RetentionValue::Number(n))) is Err,
        period_value(None) == Ok::<Option<usize>, Seq<char>>(None),
        match period_value(Some(RetentionValue::Text(t))) {
            Ok(v) => v is Some && period_number(t@) == Ok::<usize, Seq<char>>(v.unwrap()),
            Err(e) => period_number(t@) == Err::<usize, Seq<char>>(e),
        },
{
    text::law_signed_decimal_reads_back(k);
    lemma_numbers_are_no_words(k);
}

proof fn lemma_numbers_are_no_words(k: int)
    ensures
        text::decimal_int(k) != "all"@,
{
    text::law_signed_decimal_reads_back(k);
    reveal_strlit("all");
    let d = text::decimal_int(k);
    if d == "all"@ {
        assert(d[0] == 'a');
        assert(text::signed(d) is Some);
    }
}

/// An age is accepted exactly where it is a duration other than none at all, and is
/// that duration then.
pub proof fn law_keep_within_is_the_duration(s: Seq<char>, d: Duration)
    ensures
        keep_within(s) == Ok::<Duration, Seq<char>>(d) <==> units::duration(s) == Ok::<Duration, Seq<char>>(d)
            && d.millis != 0,
        units::duration(s) matches Err(e) ==> keep_within(s) == Err::<Duration, Seq<char>>(e),
{
}

/// What a lookup found is taken as it is, name by name, and only where every name
/// found something.
pub proof fn law_what_was_found_is_taken(found: Seq<Option<ID>>)
    ensures
        ids_found(found).len() == found.len(),
        all_found(found) <==> !exists|i: int| 0 <= i < found.len() && (#[trigger] found[i]) is None,
        all_found(found) ==> forall|i: int|
            0 <= i < found.len() ==> found[i] == Some(#[trigger] ids_found(found)[i]),
        forall|i: int, j: int| #[trigger] first_missing(found, i) && #[trigger] first_missing(found, j) ==> i == j,
        forall|i: int| #[trigger] first_missing(found, i) ==> !all_found(found),
        !all_found(found) ==> exists|i: int| #[trigger] first_missing(found, i),
    decreases found.len(),
{
    if !all_found(found) {
        let most = found.drop_last();
        law_what_was_found_is_taken(most);
        if all_found(most) {
            assert forall|j: int| 0 <= j < found.len() - 1 implies (#[trigger] found[j]) is Some by {
                assert(most[j] is Some);
            }
            assert(first_missing(found, found.len() - 1));
        } else {
            let i = choose|i: int| #[trigger] first_missing(most, i);
            assert forall|j: int| 0 <= j < i implies (#[trigger] found[j]) is Some by {
                assert(most[j] is Some);
            }
            assert(found[i] == most[i]);
            assert(first_missing(found, i));
        }
    }
    assert forall|i: int, j: int| #[trigger] first_missing(found, i) && #[trigger] first_missing(
        found,
        j,
    ) implies i == j by {
        if i < j {
            assert(found[i] is Some);
        }
        if j < i {
            assert(found[j] is Some);
        }
    }
    assert forall|i: int| #[trigger] first_missing(found, i) implies !all_found(found) by {
        assert(found[i] is None);
    }
}

/// What each error comes to: its exit code, which is never that of success, and what is
/// said of it, which ends with what went wrong.
pub proof fn law_errors_tell_what_went_wrong(e: ForgetError)
    ensures
        0 < e.exit_code() < 256,
        e matches ForgetError::RepoOpenFail(t) ==> e.exit_code() == 10 && e.message()
            == "failed to open repository: "@ + t@,
        e matches ForgetError::InvalidRule(t) ==> e.exit_code() == 20 && e.message()
            == "invalid retention rule: "@ + t@,
        e matches ForgetError::ForgetFailed(t) ==> e.exit_code() == 30 && e.message() == "forget failed: "@ + t@,
        e is Interrupted ==> e.exit_code() == 130 && e.message() == "forget interrupted by user"@,
        e matches ForgetError::Repo(t) ==> e.exit_code() == 1 && e.message() == t.displayed(),
        e matches ForgetError::Io(t) ==> e.exit_code() == 1 && e.message() == t@,
{
}

/// Where a step fails it is told which one it was.
pub proof fn law_each_step_is_told(step: ForgetStep, other: ForgetStep)
    ensures
        step_failed(step) == step_failed(other) <==> step == other,
        step is Load ==> step_failed(step) == "failed to load snapshots: "@,
        step is Delete ==> step_failed(step) == "failed to delete snapshot: "@,
        step is Mark ==> step_failed(step) == "failed to mark snapshot for deletion: "@,
        step is Clean ==> step_failed(step) == "gc failed: "@,
{
    reveal_strlit("failed to load snapshots: ");
    reveal_strlit("failed to delete snapshot: ");
    reveal_strlit("failed to mark snapshot for deletion: ");
    reveal_strlit("gc failed: ");
    assert("failed to load snapshots: "@.len() != "failed to delete snapshot: "@.len());
    assert("failed to load snapshots: "@.len() != "failed to mark snapshot for deletion: "@.len());
    assert("failed to load snapshots: "@.len() != "gc failed: "@.len());
    assert("failed to delete snapshot: "@.len() != "failed to mark snapshot for deletion: "@.len());
    assert("failed to delete snapshot: "@.len() != "gc failed: "@.len());
    assert("failed to mark snapshot for deletion: "@.len() != "gc failed: "@.len());
}

/// Each snapshot stays or goes by itself, and each list keeps the order of what was
/// considered: what stays and what goes of two lists, one behind the other, is that of
/// the first and then that of the second.
pub proof fn law_each_snapshot_stays_or_goes_by_itself(
    e: SnapshotEntry,
    a: Seq<SnapshotEntry>,
    b: Seq<SnapshotEntry>,
    keep: Set<ID>,
)
    ensures
        keep.contains(e.id) ==> kept_of(seq![e], keep) == seq![e] && removed_of(seq![e], keep).len() == 0,
        !keep.contains(e.id) ==> removed_of(seq![e], keep) == seq![e] && kept_of(seq![e], keep).len() == 0,
        kept_of(a + b, keep) == kept_of(a, keep) + kept_of(b, keep),
        removed_of(a + b, keep) == removed_of(a, keep) + removed_of(b, keep),
{
    snapshots::law_each_snapshot_is_chosen_by_itself(e, a, b, |e: SnapshotEntry| keep.contains(e.id));
    snapshots::law_each_snapshot_is_chosen_by_itself(e, a, b, |e: SnapshotEntry| !keep.contains(e.id));
}

/// What is kept where snapshots are named is every one in the list that is not among
/// them.
pub proof fn law_all_but_the_named_are_kept(entries: Seq<SnapshotEntry>, forget: Seq<ID>, id: ID)
    ensures
        all_but(entries, forget).contains(id) <==> !forget.contains(id) && exists|i: int|
            0 <= i < entries.len() && (#[trigger] entries[i]).id == id,
{
}

/// The tags of a rule stand in order, and an option as it is written out is taken back
/// as it is.
pub proof fn law_rules_and_options_are_in_order(
    rules: Seq<RetentionRule>,
    i: int,
    n: Option<usize>,
    reader: spec_fn(Option<RetentionValue>) -> Result<Option<usize>, Seq<char>>,
)
    requires
        0 <= i < rules.len(),
    ensures
        in_order(rules) && rules[i] is KeepTags ==> rules[i]->KeepTags_0.well_formed(),
        reads_back(n, reader) && n is Some ==> reader(Some(RetentionValue::Number(n.unwrap()))) == Ok::<
            Option<usize>,
            Seq<char>,
        >(n),
        reads_back(n, reader) && n is None ==> reader(None) == Ok::<Option<usize>, Seq<char>>(None),
{
    assert(in_order(rules) ==> (rules[i] matches RetentionRule::KeepTags(t) ==> t.well_formed()));
}

/// What is refused is told why: a text that is no number, or none that fits, as such,
/// and any other number as one that is too small.
pub proof fn law_why_a_number_is_refused(s: Seq<char>, e: Seq<char>)
    ensures
        retention_number(s) == Err::<usize, Seq<char>>(e) ==> e == (if text::signed(s) matches Some(n) && isize::MIN <= n
            <= isize::MAX {
            "n must be greater than 0"@
        } else {
            s + " is not a number"@
        }),
        period_number(s) == Err::<usize, Seq<char>>(e) ==> e == (if text::signed(s) matches Some(n) && isize::MIN <= n
            <= isize::MAX {
            "n must be greater than 1"@
        } else {
            s + " is not a number"@
        }),
        keep_within(s) == Err::<Duration, Seq<char>>(e) ==> e == (if units::duration(s) is Ok {
            "keep-within must be greater than 0"@
        } else {
            units::duration(s)->Err_0
        }),
        period_value(Some(RetentionValue::Number(0))) == Err::<Option<usize>, Seq<char>>(
            "retention number must be greater than 1"@,
        ),
        period_value(Some(RetentionValue::Number(1))) == Err::<Option<usize>, Seq<char>>(
            "retention number must be greater than 1"@,
        ),
{
}

/// Garbage is collected only where that is asked for, only for show on a dry run, and
/// with the tolerance that is given, or else the one that holds by default.
pub proof fn law_cleaning_is_asked_for(args: CmdArgs, defaults: Defaults)
    ensures
        cleaned_with(args, defaults) is Some <==> args.run_gc,
        cleaned_with(args, defaults) matches Some(gc) ==> {
            &&& gc.dry_run == args.dry_run
            &&& !gc.no_repack
            &&& args.tolerance is Some ==> gc.tolerance == args.tolerance.unwrap()
            &&& args.tolerance is None ==> gc.tolerance == defaults.gc_tolerance_pct
        },
{
}

} // verus!
