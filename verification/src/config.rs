//! The parsed schedule configuration: per group, its member addresses and the
//! date windows during which the group is in training.
//!
//! The TOML text is decoded by the `toml` crate behind trusted wrappers.  The
//! decode is a pure function of the text, so the wrappers' contracts name its
//! result — `toml_doc` for the document, `table_entries_of`, `value_str`,
//! `value_arr` and `value_tab` for what tables and values hold — and the walk
//! over the decoded document, with every domain-level check (addresses,
//! dates, table shape), is verified against a spec mirror over those names.

use crate::date::{date_le, date_of_str, valid_date_str, Date};
use crate::lookup::find_idx;
use crate::types::{valid_email, Email, GroupName};
use vstd::prelude::*;

verus! {

/// A date window, inclusive at both endpoints.
#[derive(Debug, Clone, Copy, PartialEq, Eq, Structural)]
pub struct TimeRange {
    pub from: Date,
    pub to: Date,
}

/// `d` lies within `r`, both endpoints included.  A range whose `from` lies
/// after its `to` contains nothing.
pub open spec fn range_contains(r: TimeRange, d: Date) -> bool {
    date_le(r.from, d) && date_le(d, r.to)
}

impl TimeRange {
    /// Both endpoints are real calendar dates.
    pub open spec fn wf(&self) -> bool {
        self.from.wf() && self.to.wf()
    }

    /// Whether the date lies within the range, endpoints included.
    pub fn contains(&self, date: &Date) -> (r: bool)
        ensures
            r == range_contains(*self, *date),
    {
        self.from.le(date) && date.le(&self.to)
    }
}

/// Why a configuration text was rejected.
#[derive(Debug, PartialEq)]
pub enum ConfigError {
    /// The text is not a TOML document; holds the parser's message.
    Toml(String),
    /// The document has no `groups` table.
    GroupsNotFound,
    /// The document has no `schedule` table.
    ScheduleNotFound,
    /// A group's value is not an array.
    EmailsNotArray,
    /// An entry in a group's member list is not a string.
    EmailNotString,
    /// A member entry is not a well-formed email address.
    InvalidEmail,
    /// A schedule entry's value is not an array.
    SchedulesNotArray,
    /// A schedule window is not a table.
    ScheduleItemNotTable,
    /// A schedule window has no `from` string.
    FromNotFound,
    /// A schedule window has no `to` string.
    ToNotFound,
    /// A window endpoint is not a date in `YYYY-MM-DD` form.
    InvalidDate,
}

/// The group names in `g` are pairwise distinct.
pub open spec fn distinct_group_keys(g: Seq<(GroupName, Vec<Email>)>) -> bool {
    forall|i: int, j: int| 0 <= i < j < g.len() ==> (#[trigger] g[i]).0@ != (#[trigger] g[j]).0@
}

/// The group names in `s` are pairwise distinct.
pub open spec fn distinct_schedule_keys(s: Seq<(GroupName, Vec<TimeRange>)>) -> bool {
    forall|i: int, j: int| 0 <= i < j < s.len() ==> (#[trigger] s[i]).0@ != (#[trigger] s[j]).0@
}

/// Every member entry of every group is a well-formed address.
pub open spec fn emails_all_valid(g: Seq<(GroupName, Vec<Email>)>) -> bool {
    forall|i: int, k: int|
        0 <= i < g.len() && 0 <= k < (#[trigger] g[i]).1@.len() ==> valid_email(
            #[trigger] g[i].1@[k]@,
        )
}

/// Every window of every schedule entry has real calendar dates as endpoints.
pub open spec fn ranges_all_wf(s: Seq<(GroupName, Vec<TimeRange>)>) -> bool {
    forall|i: int, k: int|
        0 <= i < s.len() && 0 <= k < (#[trigger] s[i]).1@.len() ==> (#[trigger] s[i].1@[k]).wf()
}

/// What the TOML crate decodes a text to, at the level this walk reads it:
/// the document's entry list in iteration order, or `None` when the text is
/// not a TOML document.  The decode depends on the text alone.
pub uninterp spec fn toml_doc(s: Seq<char>) -> Option<Seq<(Seq<char>, toml::Value)>>;

/// What a decoded table holds: its entry list in iteration order, keys
/// pairwise distinct.
pub uninterp spec fn table_entries_of(t: toml::Table) -> Seq<(Seq<char>, toml::Value)>;

/// What a decoded value holds when it is a string, `None` otherwise.
pub uninterp spec fn value_str(v: toml::Value) -> Option<Seq<char>>;

/// What a decoded value holds when it is an array, `None` otherwise.
pub uninterp spec fn value_arr(v: toml::Value) -> Option<Seq<toml::Value>>;

/// What a decoded value holds when it is a table — that table's entry
/// list — `None` otherwise.
pub uninterp spec fn value_tab(v: toml::Value) -> Option<Seq<(Seq<char>, toml::Value)>>;

/// Index of the first entry keyed by `key`, `-1` if none is.
pub open spec fn entry_match_idx(es: Seq<(Seq<char>, toml::Value)>, key: Seq<char>) -> int {
    find_idx(es, |p: (Seq<char>, toml::Value)| p.0 == key)
}

/// The value of the first entry keyed by `key`.
pub open spec fn entry_lookup(es: Seq<(Seq<char>, toml::Value)>, key: Seq<char>) -> Option<
    toml::Value,
> {
    let i = entry_match_idx(es, key);
    if i < 0 {
        None
    } else {
        Some(es[i].1)
    }
}

/// The configuration a decoded document describes, as plain values.
pub ghost struct ConfigModel {
    pub groups: Seq<(Seq<char>, Seq<Seq<char>>)>,
    pub schedule: Seq<(Seq<char>, Seq<TimeRange>)>,
}

/// One group's member array, decoded: every element must be a string
/// holding a well-formed address; the first offender names the error.
pub open spec fn spec_parse_email_list(vals: Seq<toml::Value>) -> Result<
    Seq<Seq<char>>,
    ConfigError,
>
    decreases vals.len(),
{
    if vals.len() == 0 {
        Ok(Seq::empty())
    } else {
        match spec_parse_email_list(vals.drop_last()) {
            Err(e) => Err(e),
            Ok(prefix) => match value_str(vals.last()) {
                None => Err(ConfigError::EmailNotString),
                Some(t) => if valid_email(t) {
                    Ok(prefix.push(t))
                } else {
                    Err(ConfigError::InvalidEmail)
                },
            },
        }
    }
}

/// The `groups` table, decoded entry by entry in order.
pub open spec fn spec_parse_groups(es: Seq<(Seq<char>, toml::Value)>) -> Result<
    Seq<(Seq<char>, Seq<Seq<char>>)>,
    ConfigError,
>
    decreases es.len(),
{
    if es.len() == 0 {
        Ok(Seq::empty())
    } else {
        match spec_parse_groups(es.drop_last()) {
            Err(e) => Err(e),
            Ok(prefix) => match value_arr(es.last().1) {
                None => Err(ConfigError::EmailsNotArray),
                Some(vals) => match spec_parse_email_list(vals) {
                    Err(e) => Err(e),
                    Ok(emails) => Ok(prefix.push((es.last().0, emails))),
                },
            },
        }
    }
}

/// One schedule window, decoded: a table with `from` and `to` date strings,
/// checked in the engine's order.
pub open spec fn spec_parse_window(v: toml::Value) -> Result<TimeRange, ConfigError> {
    match value_tab(v) {
        None => Err(ConfigError::ScheduleItemNotTable),
        Some(wes) => match entry_lookup(wes, "from"@) {
            None => Err(ConfigError::FromNotFound),
            Some(fv) => match value_str(fv) {
                None => Err(ConfigError::FromNotFound),
                Some(ft) => match entry_lookup(wes, "to"@) {
                    None => Err(ConfigError::ToNotFound),
                    Some(tv) => match value_str(tv) {
                        None => Err(ConfigError::ToNotFound),
                        Some(tt) => if !valid_date_str(ft) {
                            Err(ConfigError::InvalidDate)
                        } else if !valid_date_str(tt) {
                            Err(ConfigError::InvalidDate)
                        } else {
                            Ok(TimeRange { from: date_of_str(ft), to: date_of_str(tt) })
                        },
                    },
                },
            },
        },
    }
}

/// One schedule entry's window array, decoded in order.
pub open spec fn spec_parse_window_list(vals: Seq<toml::Value>) -> Result<
    Seq<TimeRange>,
    ConfigError,
>
    decreases vals.len(),
{
    if vals.len() == 0 {
        Ok(Seq::empty())
    } else {
        match spec_parse_window_list(vals.drop_last()) {
            Err(e) => Err(e),
            Ok(prefix) => match spec_parse_window(vals.last()) {
                Err(e) => Err(e),
                Ok(w) => Ok(prefix.push(w)),
            },
        }
    }
}

/// The `schedule` table, decoded entry by entry in order.
pub open spec fn spec_parse_schedule(es: Seq<(Seq<char>, toml::Value)>) -> Result<
    Seq<(Seq<char>, Seq<TimeRange>)>,
    ConfigError,
>
    decreases es.len(),
{
    if es.len() == 0 {
        Ok(Seq::empty())
    } else {
        match spec_parse_schedule(es.drop_last()) {
            Err(e) => Err(e),
            Ok(prefix) => match value_arr(es.last().1) {
                None => Err(ConfigError::SchedulesNotArray),
                Some(vals) => match spec_parse_window_list(vals) {
                    Err(e) => Err(e),
                    Ok(windows) => Ok(prefix.push((es.last().0, windows))),
                },
            },
        }
    }
}

/// The whole document, decoded in the engine's order: resolve and shape both
/// top-level tables, then their contents, groups first.
pub open spec fn spec_parse_config(doc: Seq<(Seq<char>, toml::Value)>) -> Result<
    ConfigModel,
    ConfigError,
> {
    match entry_lookup(doc, "groups"@) {
        None => Err(ConfigError::GroupsNotFound),
        Some(gv) => match value_tab(gv) {
            None => Err(ConfigError::GroupsNotFound),
            Some(ges) => match entry_lookup(doc, "schedule"@) {
                None => Err(ConfigError::ScheduleNotFound),
                Some(sv) => match value_tab(sv) {
                    None => Err(ConfigError::ScheduleNotFound),
                    Some(ses) => match spec_parse_groups(ges) {
                        Err(e) => Err(e),
                        Ok(gs) => match spec_parse_schedule(ses) {
                            Err(e) => Err(e),
                            Ok(ss) => Ok(ConfigModel { groups: gs, schedule: ss }),
                        },
                    },
                },
            },
        },
    }
}

/// The stored addresses spell the model's, in order.
pub open spec fn emails_match_model(es: Seq<Email>, m: Seq<Seq<char>>) -> bool {
    es.len() == m.len() && forall|k: int| 0 <= k < es.len() ==> (#[trigger] es[k])@ == m[k]
}

/// The stored group entries carry the model's keys and addresses, in order.
pub open spec fn groups_match_model(
    a: Seq<(GroupName, Vec<Email>)>,
    m: Seq<(Seq<char>, Seq<Seq<char>>)>,
) -> bool {
    a.len() == m.len() && forall|i: int|
        0 <= i < a.len() ==> (#[trigger] a[i]).0@ == m[i].0 && emails_match_model(
            a[i].1@,
            m[i].1,
        )
}

/// The stored schedule entries carry the model's keys and windows, in order.
pub open spec fn schedule_match_model(
    a: Seq<(GroupName, Vec<TimeRange>)>,
    m: Seq<(Seq<char>, Seq<TimeRange>)>,
) -> bool {
    a.len() == m.len() && forall|i: int|
        0 <= i < a.len() ==> (#[trigger] a[i]).0@ == m[i].0 && a[i].1@ == m[i].1
}

/// The parsed configuration: group membership and training schedule, keyed by
/// group name.
#[derive(Debug, PartialEq)]
pub struct ConfigFile {
    /// Each group name with its member addresses.
    pub groups: Vec<(GroupName, Vec<Email>)>,
    /// Each group name with its training windows.
    pub schedule: Vec<(GroupName, Vec<TimeRange>)>,
}

impl ConfigFile {
    /// Keys of both tables are distinct, as a TOML table's keys are.
    pub open spec fn wf(&self) -> bool {
        distinct_group_keys(self.groups@) && distinct_schedule_keys(self.schedule@)
    }

    /// Parses a TOML configuration with `groups` and `schedule` tables.
    /// Failures — text that is not TOML, a missing table, a malformed
    /// window, an invalid address or date — are reported without any remote
    /// call being involved: the result is `Toml` exactly when the text does
    /// not decode, and otherwise follows `spec_parse_config` on the decoded
    /// document, error for error and entry for entry.
    pub fn from_str(s: &str) -> (r: Result<ConfigFile, ConfigError>)
        ensures
            (r matches Err(ConfigError::Toml(_))) <==> toml_doc(s@) is None,
            toml_doc(s@) matches Some(doc) ==> ({
                let sp = spec_parse_config(doc);
                match r {
                    Ok(c) => sp matches Ok(m) && groups_match_model(c.groups@, m.groups)
                        && schedule_match_model(c.schedule@, m.schedule),
                    Err(e) => sp matches Err(se) && e == se,
                }
            }),
            r is Ok ==> r->Ok_0.wf(),
            r is Ok ==> emails_all_valid(r->Ok_0.groups@),
            r is Ok ==> ranges_all_wf(r->Ok_0.schedule@),
    {
        let table = match parse_toml(s) {
            Ok(t) => t,
            Err(m) => return Err(ConfigError::Toml(m)),
        };
        let groups_value = match table_get(&table, "groups") {
            Some(v) => v,
            None => return Err(ConfigError::GroupsNotFound),
        };
        let groups_table = match value_as_table(groups_value) {
            Some(t) => t,
            None => return Err(ConfigError::GroupsNotFound),
        };
        let schedule_value = match table_get(&table, "schedule") {
            Some(v) => v,
            None => return Err(ConfigError::ScheduleNotFound),
        };
        let schedule_table = match value_as_table(schedule_value) {
            Some(t) => t,
            None => return Err(ConfigError::ScheduleNotFound),
        };
        let groups = match parse_groups(groups_table) {
            Ok(g) => g,
            Err(e) => {
                proof {
                    lemma_spec_parse_groups_err_plain(table_entries_of(*groups_table));
                }
                return Err(e);
            },
        };
        let schedule = match parse_schedule(schedule_table) {
            Ok(sch) => sch,
            Err(e) => {
                proof {
                    lemma_spec_parse_schedule_err_plain(table_entries_of(*schedule_table));
                }
                return Err(e);
            },
        };
        Ok(ConfigFile { groups, schedule })
    }
}

/// The mirror of the member-list walk never reports a `Toml` error.
proof fn lemma_spec_parse_email_list_err_plain(vals: Seq<toml::Value>)
    ensures
        spec_parse_email_list(vals) matches Err(e) ==> !(e is Toml),
    decreases vals.len(),
{
    if vals.len() > 0 {
        lemma_spec_parse_email_list_err_plain(vals.drop_last());
    }
}

/// The mirror of the groups walk never reports a `Toml` error.
proof fn lemma_spec_parse_groups_err_plain(es: Seq<(Seq<char>, toml::Value)>)
    ensures
        spec_parse_groups(es) matches Err(e) ==> !(e is Toml),
    decreases es.len(),
{
    if es.len() > 0 {
        lemma_spec_parse_groups_err_plain(es.drop_last());
        lemma_spec_parse_email_list_err_plain(match value_arr(es.last().1) {
            Some(vals) => vals,
            None => Seq::empty(),
        });
    }
}

/// The mirror of the window-list walk never reports a `Toml` error.
proof fn lemma_spec_parse_window_list_err_plain(vals: Seq<toml::Value>)
    ensures
        spec_parse_window_list(vals) matches Err(e) ==> !(e is Toml),
    decreases vals.len(),
{
    if vals.len() > 0 {
        lemma_spec_parse_window_list_err_plain(vals.drop_last());
    }
}

/// The mirror of the schedule walk never reports a `Toml` error.
proof fn lemma_spec_parse_schedule_err_plain(es: Seq<(Seq<char>, toml::Value)>)
    ensures
        spec_parse_schedule(es) matches Err(e) ==> !(e is Toml),
    decreases es.len(),
{
    if es.len() > 0 {
        lemma_spec_parse_schedule_err_plain(es.drop_last());
        lemma_spec_parse_window_list_err_plain(match value_arr(es.last().1) {
            Some(vals) => vals,
            None => Seq::empty(),
        });
    }
}

/// Once a prefix of the member array fails, the whole array fails the same
/// way.
proof fn lemma_email_list_err_extends(vals: Seq<toml::Value>, m: int)
    requires
        0 <= m <= vals.len(),
        spec_parse_email_list(vals.subrange(0, m)) is Err,
    ensures
        spec_parse_email_list(vals) == spec_parse_email_list(vals.subrange(0, m)),
    decreases vals.len() - m,
{
    if m == vals.len() {
        assert(vals.subrange(0, m) =~= vals);
    } else {
        assert(vals.subrange(0, m + 1).drop_last() =~= vals.subrange(0, m));
        lemma_email_list_err_extends(vals, m + 1);
    }
}

/// Once a prefix of the groups table fails, the whole table fails the same
/// way.
proof fn lemma_groups_err_extends(es: Seq<(Seq<char>, toml::Value)>, m: int)
    requires
        0 <= m <= es.len(),
        spec_parse_groups(es.subrange(0, m)) is Err,
    ensures
        spec_parse_groups(es) == spec_parse_groups(es.subrange(0, m)),
    decreases es.len() - m,
{
    if m == es.len() {
        assert(es.subrange(0, m) =~= es);
    } else {
        assert(es.subrange(0, m + 1).drop_last() =~= es.subrange(0, m));
        lemma_groups_err_extends(es, m + 1);
    }
}

/// Once a prefix of a window array fails, the whole array fails the same
/// way.
proof fn lemma_window_list_err_extends(vals: Seq<toml::Value>, m: int)
    requires
        0 <= m <= vals.len(),
        spec_parse_window_list(vals.subrange(0, m)) is Err,
    ensures
        spec_parse_window_list(vals) == spec_parse_window_list(vals.subrange(0, m)),
    decreases vals.len() - m,
{
    if m == vals.len() {
        assert(vals.subrange(0, m) =~= vals);
    } else {
        assert(vals.subrange(0, m + 1).drop_last() =~= vals.subrange(0, m));
        lemma_window_list_err_extends(vals, m + 1);
    }
}

/// Once a prefix of the schedule table fails, the whole table fails the
/// same way.
proof fn lemma_schedule_err_extends(es: Seq<(Seq<char>, toml::Value)>, m: int)
    requires
        0 <= m <= es.len(),
        spec_parse_schedule(es.subrange(0, m)) is Err,
    ensures
        spec_parse_schedule(es) == spec_parse_schedule(es.subrange(0, m)),
    decreases es.len() - m,
{
    if m == es.len() {
        assert(es.subrange(0, m) =~= es);
    } else {
        assert(es.subrange(0, m + 1).drop_last() =~= es.subrange(0, m));
        lemma_schedule_err_extends(es, m + 1);
    }
}

/// Reads the `groups` table: each key maps to an array of address strings.
fn parse_groups(groups: &toml::Table) -> (r: Result<Vec<(GroupName, Vec<Email>)>, ConfigError>)
    ensures
        ({
            let sp = spec_parse_groups(table_entries_of(*groups));
            match r {
                Ok(gs) => sp matches Ok(m) && groups_match_model(gs@, m),
                Err(e) => sp matches Err(se) && e == se,
            }
        }),
        r is Ok ==> distinct_group_keys(r->Ok_0@),
        r is Ok ==> emails_all_valid(r->Ok_0@),
{
    let entries = table_entries(groups);
    let ghost es = table_entries_of(*groups);
    proof {
        assert forall|p: int, q: int| 0 <= p < q < es.len() implies (#[trigger] es[p]).0 != (
        #[trigger] es[q]).0 by {
            assert((entries@[p]).0@ == es[p].0 && (entries@[q]).0@ == es[q].0);
            assert((entries@[p]).0@ != (entries@[q]).0@);
        }
    }
    let mut out: Vec<(GroupName, Vec<Email>)> = Vec::new();
    let mut i: usize = 0;
    while i < entries.len()
        invariant
            i <= entries@.len(),
            out@.len() == i,
            es == table_entries_of(*groups),
            entries@.len() == es.len(),
            forall|k: int|
                0 <= k < es.len() ==> (#[trigger] entries@[k]).0@ == es[k].0 && *entries@[k].1
                    == es[k].1,
            forall|p: int, q: int|
                0 <= p < q < es.len() ==> (#[trigger] es[p]).0 != (#[trigger] es[q]).0,
            spec_parse_groups(es.subrange(0, i as int)) matches Ok(m) && groups_match_model(
                out@,
                m,
            ),
            forall|k: int| 0 <= k < i ==> (#[trigger] out@[k]).0@ == es[k].0,
            emails_all_valid(out@),
        decreases entries@.len() - i,
    {
        proof {
            assert(es.subrange(0, i + 1).drop_last() =~= es.subrange(0, i as int));
            assert(es.subrange(0, i + 1).last() == es[i as int]);
        }
        let pair = &entries[i];
        let arr = match value_as_array(pair.1) {
            Some(a) => a,
            None => {
                proof {
                    assert(*pair.1 == es[i as int].1);
                    assert(value_arr(es[i as int].1) is None);
                    assert(spec_parse_groups(es.subrange(0, i + 1)) is Err);
                    lemma_groups_err_extends(es, i + 1);
                }
                return Err(ConfigError::EmailsNotArray);
            },
        };
        let emails = match parse_email_array(arr) {
            Ok(em) => em,
            Err(e) => {
                proof {
                    assert(*pair.1 == es[i as int].1);
                    assert(value_arr(es[i as int].1) is Some && value_arr(es[i as int].1)->0
                        == arr@);
                    assert(spec_parse_groups(es.subrange(0, i + 1)) is Err);
                    lemma_groups_err_extends(es, i + 1);
                }
                return Err(e);
            },
        };
        let ghost prev = out@;
        out.push((GroupName::new(pair.0.as_str()), emails));
        proof {
            assert(forall|k: int| 0 <= k < prev.len() ==> #[trigger] out@[k] == prev[k]);
            let m1 = spec_parse_groups(es.subrange(0, i + 1))->Ok_0;
            assert(out@[out@.len() - 1].0@ == m1[m1.len() - 1].0);
            assert(emails_match_model(out@[out@.len() - 1].1@, m1[m1.len() - 1].1));
        }
        i = i + 1;
    }
    proof {
        assert(es.subrange(0, es.len() as int) =~= es);
    }
    Ok(out)
}

/// Reads one group's member array: every element must be a string holding a
/// well-formed address.
fn parse_email_array(arr: &Vec<toml::Value>) -> (r: Result<Vec<Email>, ConfigError>)
    ensures
        ({
            let sp = spec_parse_email_list(arr@);
            match r {
                Ok(es) => sp matches Ok(m) && emails_match_model(es@, m),
                Err(e) => sp matches Err(se) && e == se,
            }
        }),
        r is Ok ==> forall|k: int|
            0 <= k < r->Ok_0@.len() ==> valid_email(#[trigger] r->Ok_0@[k]@),
{
    let mut out: Vec<Email> = Vec::new();
    let mut i: usize = 0;
    while i < arr.len()
        invariant
            i <= arr@.len(),
            out@.len() == i,
            spec_parse_email_list(arr@.subrange(0, i as int)) matches Ok(m) && emails_match_model(
                out@,
                m,
            ),
            forall|k: int| 0 <= k < out@.len() ==> valid_email(#[trigger] out@[k]@),
        decreases arr@.len() - i,
    {
        proof {
            assert(arr@.subrange(0, i + 1).drop_last() =~= arr@.subrange(0, i as int));
            assert(arr@.subrange(0, i + 1).last() == arr@[i as int]);
        }
        let text = match value_as_str(&arr[i]) {
            Some(t) => t,
            None => {
                proof {
                    lemma_email_list_err_extends(arr@, i + 1);
                }
                return Err(ConfigError::EmailNotString);
            },
        };
        let email = match Email::from_str(text) {
            Ok(e) => e,
            Err(_) => {
                proof {
                    lemma_email_list_err_extends(arr@, i + 1);
                }
                return Err(ConfigError::InvalidEmail);
            },
        };
        let ghost prev = out@;
        out.push(email);
        proof {
            assert(forall|k: int| 0 <= k < prev.len() ==> #[trigger] out@[k] == prev[k]);
        }
        i = i + 1;
    }
    proof {
        assert(arr@.subrange(0, arr@.len() as int) =~= arr@);
    }
    Ok(out)
}

/// Reads the `schedule` table: each key maps to an array of window tables.
fn parse_schedule(schedule: &toml::Table) -> (r: Result<
    Vec<(GroupName, Vec<TimeRange>)>,
    ConfigError,
>)
    ensures
        ({
            let sp = spec_parse_schedule(table_entries_of(*schedule));
            match r {
                Ok(ss) => sp matches Ok(m) && schedule_match_model(ss@, m),
                Err(e) => sp matches Err(se) && e == se,
            }
        }),
        r is Ok ==> distinct_schedule_keys(r->Ok_0@),
        r is Ok ==> ranges_all_wf(r->Ok_0@),
{
    let entries = table_entries(schedule);
    let ghost es = table_entries_of(*schedule);
    proof {
        assert forall|p: int, q: int| 0 <= p < q < es.len() implies (#[trigger] es[p]).0 != (
        #[trigger] es[q]).0 by {
            assert((entries@[p]).0@ == es[p].0 && (entries@[q]).0@ == es[q].0);
            assert((entries@[p]).0@ != (entries@[q]).0@);
        }
    }
    let mut out: Vec<(GroupName, Vec<TimeRange>)> = Vec::new();
    let mut i: usize = 0;
    while i < entries.len()
        invariant
            i <= entries@.len(),
            out@.len() == i,
            es == table_entries_of(*schedule),
            entries@.len() == es.len(),
            forall|k: int|
                0 <= k < es.len() ==> (#[trigger] entries@[k]).0@ == es[k].0 && *entries@[k].1
                    == es[k].1,
            forall|p: int, q: int|
                0 <= p < q < es.len() ==> (#[trigger] es[p]).0 != (#[trigger] es[q]).0,
            spec_parse_schedule(es.subrange(0, i as int)) matches Ok(m) && schedule_match_model(
                out@,
                m,
            ),
            forall|k: int| 0 <= k < i ==> (#[trigger] out@[k]).0@ == es[k].0,
            ranges_all_wf(out@),
        decreases entries@.len() - i,
    {
        proof {
            assert(es.subrange(0, i + 1).drop_last() =~= es.subrange(0, i as int));
            assert(es.subrange(0, i + 1).last() == es[i as int]);
        }
        let pair = &entries[i];
        let arr = match value_as_array(pair.1) {
            Some(a) => a,
            None => {
                proof {
                    assert(*pair.1 == es[i as int].1);
                    assert(value_arr(es[i as int].1) is None);
                    assert(spec_parse_schedule(es.subrange(0, i + 1)) is Err);
                    lemma_schedule_err_extends(es, i + 1);
                }
                return Err(ConfigError::SchedulesNotArray);
            },
        };
        let mut windows: Vec<TimeRange> = Vec::new();
        let mut k: usize = 0;
        while k < arr.len()
            invariant
                k <= arr@.len(),
                spec_parse_window_list(arr@.subrange(0, k as int)) == Ok::<
                    Seq<TimeRange>,
                    ConfigError,
                >(windows@),
                forall|l: int| 0 <= l < windows@.len() ==> (#[trigger] windows@[l]).wf(),
                i < entries@.len(),
                entries@.len() == es.len(),
                forall|k2: int|
                    0 <= k2 < es.len() ==> (#[trigger] entries@[k2]).0@ == es[k2].0
                        && *entries@[k2].1 == es[k2].1,
                value_arr(es[i as int].1) == Some(arr@),
                es == table_entries_of(*schedule),
                spec_parse_schedule(es.subrange(0, i as int)) is Ok,
            decreases arr@.len() - k,
        {
            proof {
                assert(arr@.subrange(0, k + 1).drop_last() =~= arr@.subrange(0, k as int));
                assert(arr@.subrange(0, k + 1).last() == arr@[k as int]);
            }
            let range = match parse_schedule_item(&arr[k]) {
                Ok(w) => w,
                Err(e) => {
                    proof {
                        lemma_window_list_err_extends(arr@, k + 1);
                        assert(spec_parse_window_list(arr@) is Err);
                        assert(es.subrange(0, i + 1).drop_last() =~= es.subrange(0, i as int));
                        assert(es.subrange(0, i + 1).last() == es[i as int]);
                        assert(spec_parse_schedule(es.subrange(0, i + 1)) is Err);
                        lemma_schedule_err_extends(es, i + 1);
                    }
                    return Err(e);
                },
            };
            windows.push(range);
            k = k + 1;
        }
        proof {
            assert(arr@.subrange(0, arr@.len() as int) =~= arr@);
        }
        let ghost prev = out@;
        out.push((GroupName::new(pair.0.as_str()), windows));
        proof {
            assert(forall|k2: int| 0 <= k2 < prev.len() ==> #[trigger] out@[k2] == prev[k2]);
            let m1 = spec_parse_schedule(es.subrange(0, i + 1))->Ok_0;
            assert(out@[out@.len() - 1].0@ == m1[m1.len() - 1].0);
            assert(out@[out@.len() - 1].1@ == m1[m1.len() - 1].1);
        }
        i = i + 1;
    }
    proof {
        assert(es.subrange(0, es.len() as int) =~= es);
    }
    Ok(out)
}

/// Reads one window table: `from` and `to` must be date strings.
fn parse_schedule_item(item: &toml::Value) -> (r: Result<TimeRange, ConfigError>)
    ensures
        ({
            let sp = spec_parse_window(*item);
            match r {
                Ok(w) => sp == Ok::<TimeRange, ConfigError>(w),
                Err(e) => sp == Err::<TimeRange, ConfigError>(e),
            }
        }),
        r is Ok ==> r->Ok_0.wf(),
{
    let table = match value_as_table(item) {
        Some(t) => t,
        None => return Err(ConfigError::ScheduleItemNotTable),
    };
    let from_value = match table_get(table, "from") {
        Some(v) => v,
        None => return Err(ConfigError::FromNotFound),
    };
    let from_text = match value_as_str(from_value) {
        Some(t) => t,
        None => return Err(ConfigError::FromNotFound),
    };
    let to_value = match table_get(table, "to") {
        Some(v) => v,
        None => return Err(ConfigError::ToNotFound),
    };
    let to_text = match value_as_str(to_value) {
        Some(t) => t,
        None => return Err(ConfigError::ToNotFound),
    };
    let from = match Date::from_str(from_text) {
        Ok(d) => d,
        Err(_) => return Err(ConfigError::InvalidDate),
    };
    let to = match Date::from_str(to_text) {
        Ok(d) => d,
        Err(_) => return Err(ConfigError::InvalidDate),
    };
    Ok(TimeRange { from, to })
}

#[verifier::external_type_specification]
#[verifier::external_body]
pub struct ExTomlValue(toml::Value);

#[verifier::external_type_specification]
#[verifier::external_body]
#[verifier::reject_recursive_types(K)]
#[verifier::reject_recursive_types(V)]
pub struct ExTomlMap<K, V>(toml::map::Map<K, V>);

/// Relies on `toml::from_str`: decodes the text as a TOML document, or
/// reports the parser's message.  The decode is deterministic, so `toml_doc`
/// names its result and `table_entries_of` the returned table's contents.
#[verifier::external_body]
fn parse_toml(s: &str) -> (r: Result<toml::Table, String>)
    ensures
        r is Ok <==> toml_doc(s@) is Some,
        r matches Ok(t) ==> table_entries_of(t) == toml_doc(s@)->0,
{
    match toml::from_str::<toml::Table>(s) {
        Ok(t) => Ok(t),
        Err(e) => Err(e.to_string()),
    }
}

/// Relies on `toml::map::Map::get`: hands back the entry for the key, which
/// is unique since a map's keys are distinct.
#[verifier::external_body]
fn table_get<'a>(t: &'a toml::Table, key: &str) -> (r: Option<&'a toml::Value>)
    ensures
        ({
            let es = table_entries_of(*t);
            let i = entry_match_idx(es, key@);
            match r {
                Some(v) => i >= 0 && *v == es[i].1,
                None => i == -1,
            }
        }),
{
    t.get(key)
}

/// Relies on `toml::map::Map::iter`: yields the table's entries once each,
/// in the table's iteration order, keys pairwise distinct.
#[verifier::external_body]
fn table_entries<'a>(t: &'a toml::Table) -> (r: Vec<(String, &'a toml::Value)>)
    ensures
        r@.len() == table_entries_of(*t).len(),
        forall|i: int|
            0 <= i < r@.len() ==> (#[trigger] r@[i]).0@ == table_entries_of(*t)[i].0 && *r@[i].1
                == table_entries_of(*t)[i].1,
        forall|i: int, j: int|
            0 <= i < j < r@.len() ==> (#[trigger] r@[i]).0@ != (#[trigger] r@[j]).0@,
{
    t.iter().map(|(k, v)| (k.clone(), v)).collect()
}

/// Relies on `toml::Value::as_array`: the value's elements when it is an
/// array, `None` otherwise.
#[verifier::external_body]
fn value_as_array<'a>(v: &'a toml::Value) -> (r: Option<&'a Vec<toml::Value>>)
    ensures
        r is Some <==> value_arr(*v) is Some,
        r matches Some(a) ==> a@ == value_arr(*v)->0,
{
    v.as_array()
}

/// Relies on `toml::Value::as_str`: the value's text when it is a string,
/// `None` otherwise.
#[verifier::external_body]
fn value_as_str<'a>(v: &'a toml::Value) -> (r: Option<&'a str>)
    ensures
        r is Some <==> value_str(*v) is Some,
        r matches Some(t) ==> t@ == value_str(*v)->0,
{
    v.as_str()
}

/// Relies on `toml::Value::as_table`: the value's table when it is one,
/// `None` otherwise.
#[verifier::external_body]
fn value_as_table<'a>(v: &'a toml::Value) -> (r: Option<&'a toml::Table>)
    ensures
        r is Some <==> value_tab(*v) is Some,
        r matches Some(t) ==> table_entries_of(*t) == value_tab(*v)->0,
{
    v.as_table()
}

} // verus!
