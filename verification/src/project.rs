//! The list of projects that the assistant has been used in: each working
//! directory is recorded once, the first time the assistant runs there.
use vstd::prelude::*;

use crate::json::str_eq;

verus! {

/// A directory the assistant has been used in.
pub struct Project {
    pub name: String,
    pub path: String,
    pub last_used: String,
    pub description: String,
}

/// A project as plain text: name, path, time of first use, description.
pub type ProjectView = (Seq<char>, Seq<char>, Seq<char>, Seq<char>);

impl View for Project {
    type V = ProjectView;

    open spec fn view(&self) -> ProjectView {
        (self.name@, self.path@, self.last_used@, self.description@)
    }
}

/// The views of a list of projects.
pub open spec fn project_views(ps: Seq<Project>) -> Seq<ProjectView> {
    ps.map_values(|p: Project| p@)
}

/// Whether some project of `ps` has the path `path`.
pub open spec fn is_tracked(ps: Seq<ProjectView>, path: Seq<char>) -> bool {
    exists|i: int| 0 <= i < ps.len() && (#[trigger] ps[i]).1 == path
}

/// The description given to a directory recorded on first use.
pub open spec fn auto_description() -> Seq<char> {
    "Auto-tracked by gcli v3"@
}

/// The list after recording directory `path` (named `name`, first used at
/// `now`): unchanged when the path is already there, else with the new
/// project at the end.
pub open spec fn tracked_list(
    ps: Seq<ProjectView>,
    path: Seq<char>,
    name: Seq<char>,
    now: Seq<char>,
) -> Seq<ProjectView> {
    if is_tracked(ps, path) {
        ps
    } else {
        ps.push((name, path, now, auto_description()))
    }
}

/// Whether `projects` holds a project with path `path`.
pub fn is_tracked_dir(projects: &Vec<Project>, path: &str) -> (r: bool)
    ensures
        r == is_tracked(project_views(projects@), path@),
{
    let mut i: usize = 0;
    while i < projects.len()
        invariant
            i <= projects@.len(),
            forall|k: int| 0 <= k < i ==> projects@[k].path@ != path@,
        decreases projects@.len() - i,
    {
        if str_eq(projects[i].path.as_str(), path) {
            assert(project_views(projects@)[i as int].1 == path@);
            return true;
        }
        i = i + 1;
    }
    assert forall|k: int| 0 <= k < project_views(projects@).len() implies (#[trigger] project_views(
        projects@,
    )[k]).1 != path@ by {
        assert(project_views(projects@)[k].1 == projects@[k].path@);
    }
    false
}

/// Records directory `path` under `name`, first used at `now`, unless it is
/// recorded already; tells whether it added it.
pub fn track_project(projects: &mut Vec<Project>, path: &str, name: &str, now: &str) -> (added: bool)
    ensures
        added == !is_tracked(project_views(old(projects)@), path@),
        project_views(final(projects)@) == tracked_list(
            project_views(old(projects)@),
            path@,
            name@,
            now@,
        ),
{
    if is_tracked_dir(projects, path) {
        false
    } else {
        let ghost before = projects@;
        let p = Project {
            name: String::from_str(name),
            path: String::from_str(path),
            last_used: String::from_str(now),
            description: String::from_str("Auto-tracked by gcli v3"),
        };
        projects.push(p);
        assert(project_views(projects@) =~= project_views(before).push(p@));
        true
    }
}

/// The last component of a path, as `Path::file_name` gives it (as text).
pub uninterp spec fn file_name_of(path: Seq<char>) -> Option<Seq<char>>;

/// `Path::new(path).file_name()`, converted to text.
/// Trusted: the result is the last component of `path` as `Path::file_name`
/// defines it (`None` for a path that ends in `..` or is a root or empty).
#[verifier::external_body]
fn path_file_name(path: &str) -> (r: Option<String>)
    ensures
        match r {
            Some(n) => file_name_of(path@) == Some(n@),
            None => file_name_of(path@) is None,
        },
{
    std::path::Path::new(path).file_name().map(|n| n.to_string_lossy().to_string())
}

/// How many characters the fraction of a second takes in the RFC 3339 text
/// of a time with `nanos` nanoseconds: none for a whole second, else a dot
/// and as few of three, six or nine digits as show it exactly.
pub open spec fn fraction_text_len(nanos: nat) -> nat {
    if nanos == 0 {
        0
    } else if nanos % 1_000_000 == 0 {
        4
    } else if nanos % 1000 == 0 {
        7
    } else {
        10
    }
}

/// Whether `c` is an ASCII digit.
pub open spec fn is_ascii_digit(c: char) -> bool {
    '0' <= c && c <= '9'
}

/// Whether every character of `s` is an ASCII digit.
pub open spec fn all_ascii_digits(s: Seq<char>) -> bool {
    forall|i: int| 0 <= i < s.len() ==> is_ascii_digit(#[trigger] s[i])
}

/// Whether `t` has two ASCII digits from position `at` on.
pub open spec fn two_digits_at(t: Seq<char>, at: int) -> bool {
    is_ascii_digit(t[at]) && is_ascii_digit(t[at + 1])
}

/// Whether `t` is an RFC 3339 time stamp in UTC, of a time after 1970 with
/// `nanos` nanoseconds: the year (four digits, or `+` and more digits past
/// the year 9999), then `-MM-DDTHH:MM:SS`, the fraction of a second when
/// there is one, and the offset `+00:00`.
pub open spec fn is_utc_timestamp(t: Seq<char>, nanos: nat) -> bool {
    let f = fraction_text_len(nanos);
    let y = t.len() - 21 - f;
    &&& (y == 4 && all_ascii_digits(t.take(4))) || (y > 5 && t[0] == '+' && all_ascii_digits(
        t.subrange(1, y),
    ))
    &&& t[y] == '-' && two_digits_at(t, y + 1) && t[y + 3] == '-' && two_digits_at(t, y + 4)
    &&& t[y + 6] == 'T' && two_digits_at(t, y + 7) && t[y + 9] == ':' && two_digits_at(t, y + 10)
    &&& t[y + 12] == ':' && two_digits_at(t, y + 13)
    &&& f > 0 ==> t[y + 15] == '.' && all_ascii_digits(t.subrange(y + 16, t.len() - 6))
    &&& t.subrange(t.len() - 6, t.len() as int) == "+00:00"@
}

/// `std::time::UNIX_EPOCH.elapsed()`, as whole seconds and the nanoseconds
/// past them.
/// Trusted: `None` when the clock reads before 1970; the nanoseconds are
/// under one second. The time itself is the machine's and is not stated.
#[verifier::external_body]
fn clock_since_epoch() -> (r: Option<(u64, u32)>)
    ensures
        r matches Some(t) ==> t.1 < 1_000_000_000,
{
    match std::time::UNIX_EPOCH.elapsed() {
        Ok(d) => Some((d.as_secs(), d.subsec_nanos())),
        Err(_) => None,
    }
}

/// The RFC 3339 text that `chrono` writes for the UTC time `secs` seconds and
/// `nanos` nanoseconds after the start of 1970, or `None` when `chrono` has
/// no such time.
pub uninterp spec fn rfc3339_of(secs: i64, nanos: u32) -> Option<Seq<char>>;

/// `chrono::DateTime::from_timestamp(secs, nanos)`, written with `to_rfc3339`.
/// Trusted: `from_timestamp` has every time from 1970 to the end of the year
/// 9999 (and more); `to_rfc3339` writes a UTC time as the year, month, day,
/// hours, minutes and seconds, the fraction of a second in three, six or nine
/// digits when it is not zero, and the offset `+00:00`. Which date and time
/// the text names (the calendar) is left to the name `rfc3339_of`.
#[verifier::external_body]
fn rfc3339_utc(secs: i64, nanos: u32) -> (r: Option<String>)
    ensures
        match r {
            Some(t) => rfc3339_of(secs, nanos) == Some(t@),
            None => rfc3339_of(secs, nanos) is None,
        },
        0 <= secs < 253_402_300_800 && nanos < 1_000_000_000 ==> r is Some,
        0 <= secs && nanos < 1_000_000_000 && r is Some ==> is_utc_timestamp(r->0@, nanos as nat),
{
    chrono::DateTime::from_timestamp(secs, nanos).map(|t| t.to_rfc3339())
}

/// Whether `t` is the RFC 3339 text of some UTC time after the start of 1970
/// with a nanosecond part under one second, as the clock gives it.
pub open spec fn is_clock_timestamp(t: Seq<char>) -> bool {
    exists|secs: i64, nanos: u32|
        0 <= secs && nanos < 1_000_000_000 && #[trigger] rfc3339_of(secs, nanos) == Some(t)
            && is_utc_timestamp(t, nanos as nat)
}

/// The time stamp for a clock reading (whole seconds and nanoseconds since
/// the start of 1970, `None` for a clock before 1970): the RFC 3339 text of
/// that time, or `None` when there is no reading or `chrono` has no such time.
pub open spec fn stamp_of(reading: Option<(u64, u32)>) -> Option<Seq<char>> {
    match reading {
        Some((secs, nanos)) => if secs <= i64::MAX {
            rfc3339_of(secs as i64, nanos)
        } else {
            None
        },
        None => None,
    }
}

/// The time stamp text for `reading`.
fn timestamp_text(reading: Option<(u64, u32)>) -> (r: Option<String>)
    ensures
        match r {
            Some(t) => stamp_of(reading) == Some(t@),
            None => stamp_of(reading) is None,
        },
        reading matches Some((s, n)) && s < 253_402_300_800 && n < 1_000_000_000 ==> r is Some,
        reading matches Some((s, n)) ==> (n < 1_000_000_000 && r is Some ==> is_utc_timestamp(
            r->0@,
            n as nat,
        )),
{
    match reading {
        None => None,
        Some((secs, nanos)) => {
            if secs > 9_223_372_036_854_775_807u64 {
                return None;
            }
            rfc3339_utc(secs as i64, nanos)
        },
    }
}

/// What recording the working directory did.
pub enum TrackOutcome {
    /// The directory was recorded already; nothing changed.
    AlreadyTracked,
    /// The directory was added, named after its last component.
    Added,
    /// The directory is new but has no last component to name it after; nothing changed.
    Unnamed,
    /// The directory is new but the clock gives no time to stamp it with
    /// (it reads before 1970); nothing changed.
    NoClock,
}

/// Records the directory `cwd`, named after its last path component and
/// stamped with the RFC 3339 text of the clock reading `reading`, unless it
/// is recorded already.
pub fn track_dir_at(projects: &mut Vec<Project>, cwd: &str, reading: Option<(u64, u32)>) -> (r:
    TrackOutcome)
    ensures
        is_tracked(project_views(old(projects)@), cwd@) ==> r is AlreadyTracked
            && final(projects)@ == old(projects)@,
        !is_tracked(project_views(old(projects)@), cwd@) && file_name_of(cwd@) is None ==> r is Unnamed
            && final(projects)@ == old(projects)@,
        !is_tracked(project_views(old(projects)@), cwd@) && file_name_of(cwd@) is Some ==> match stamp_of(
            reading,
        ) {
            Some(now) => r is Added && project_views(final(projects)@) == tracked_list(
                project_views(old(projects)@),
                cwd@,
                file_name_of(cwd@)->0,
                now,
            ),
            None => r is NoClock && final(projects)@ == old(projects)@,
        },
        reading matches Some((s, n)) && s < 253_402_300_800 && n < 1_000_000_000 ==> stamp_of(
            reading,
        ) is Some,
        reading matches Some((s, n)) ==> (n < 1_000_000_000 && stamp_of(reading) is Some
            ==> is_utc_timestamp(stamp_of(reading)->0, n as nat)),
{
    let ghost before = project_views(projects@);
    let stamp = timestamp_text(reading);
    if is_tracked_dir(projects, cwd) {
        return TrackOutcome::AlreadyTracked;
    }
    match path_file_name(cwd) {
        Some(name) => match stamp {
            Some(now) => {
                track_project(projects, cwd, name.as_str(), now.as_str());
                assert(file_name_of(cwd@)->0 == name@);
                assert(project_views(projects@) == tracked_list(
                    before,
                    cwd@,
                    file_name_of(cwd@)->0,
                    now@,
                ));
                TrackOutcome::Added
            },
            None => TrackOutcome::NoClock,
        },
        None => TrackOutcome::Unnamed,
    }
}

/// Records the working directory `cwd`, named after its last path component
/// and stamped with the current time in RFC 3339 form, unless it is recorded
/// already.
pub fn track_current_dir(projects: &mut Vec<Project>, cwd: &str) -> (r: TrackOutcome)
    ensures
        is_tracked(project_views(old(projects)@), cwd@) ==> r is AlreadyTracked
            && final(projects)@ == old(projects)@,
        !is_tracked(project_views(old(projects)@), cwd@) && file_name_of(cwd@) is None ==> r is Unnamed
            && final(projects)@ == old(projects)@,
        !is_tracked(project_views(old(projects)@), cwd@) && file_name_of(cwd@) is Some ==> r is Added
            || r is NoClock,
        r is NoClock ==> final(projects)@ == old(projects)@,
        r is Added ==> exists|now: Seq<char>|
            is_clock_timestamp(now) && project_views(final(projects)@) == #[trigger] tracked_list(
                project_views(old(projects)@),
                cwd@,
                file_name_of(cwd@)->0,
                now,
            ),
{
    let reading = clock_since_epoch();
    let r = track_dir_at(projects, cwd, reading);
    proof {
        if r is Added {
            let (s, n) = reading->0;
            let now = stamp_of(reading)->0;
            assert(rfc3339_of(s as i64, n) == Some(now));
            assert(is_clock_timestamp(now));
        }
    }
    r
}

/// Recording a directory twice is recording it once: the second time changes
/// nothing, whatever name and time it brings; afterwards the directory is
/// recorded, every project that was there stays where it was, and at most one
/// project is added.
pub proof fn law_tracking_is_idempotent(
    ps: Seq<ProjectView>,
    path: Seq<char>,
    name: Seq<char>,
    now: Seq<char>,
    name2: Seq<char>,
    now2: Seq<char>,
)
    ensures
        is_tracked(tracked_list(ps, path, name, now), path),
        tracked_list(tracked_list(ps, path, name, now), path, name2, now2) == tracked_list(
            ps,
            path,
            name,
            now,
        ),
        tracked_list(ps, path, name, now).len() <= ps.len() + 1,
        forall|i: int|
            0 <= i < ps.len() ==> #[trigger] tracked_list(ps, path, name, now)[i] == ps[i],
{
    let after = tracked_list(ps, path, name, now);
    if !is_tracked(ps, path) {
        assert(after[ps.len() as int].1 == path);
    }
}

/// A directory counts as recorded exactly when some project has that very
/// path: a path that only begins or ends like a recorded one is new.
pub proof fn law_tracked_means_same_path(ps: Seq<ProjectView>, path: Seq<char>)
    ensures
        is_tracked(ps, path) <==> exists|i: int| 0 <= i < ps.len() && #[trigger] ps[i].1 == path,
{
}

/// Recording a path that no project has adds exactly one project, at the
/// end: the given name, that path, the given time and the automatic
/// description; the projects before it stay as they were.
pub proof fn law_new_path_adds_one_project(
    ps: Seq<ProjectView>,
    path: Seq<char>,
    name: Seq<char>,
    now: Seq<char>,
)
    requires
        forall|i: int| 0 <= i < ps.len() ==> (#[trigger] ps[i]).1 != path,
    ensures
        tracked_list(ps, path, name, now).len() == ps.len() + 1,
        tracked_list(ps, path, name, now)[ps.len() as int] == (name, path, now, auto_description()),
        tracked_list(ps, path, name, now).take(ps.len() as int) == ps,
{
    assert(!is_tracked(ps, path));
    assert(tracked_list(ps, path, name, now).take(ps.len() as int) =~= ps);
}

} // verus!
