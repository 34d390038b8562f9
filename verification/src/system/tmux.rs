//! Launching through the terminal multiplexer: discovery, naming of sessions and
//! windows, the argument shape of the two creation commands, and the wording of
//! their failures.

use vstd::prelude::*;
use vstd::string::*;
use crate::registry::model::{AppEntry, EntryView};
use crate::system::exec::{is_binary_installed, opt_text, OutcomeView, ProcessOutcome};
use crate::system::os::Platform;
use crate::utils::text::{
    chars_of,
    contains_text,
    decimal,
    is_blank,
    is_blank_str,
    join3,
    join4,
    join5,
    lemma_decimal_suffix_tells,
    lemma_part_occurs,
    push_decimal,
    push_signed_decimal,
    signed_decimal,
    string_of,
};

verus! {

/// Whether the multiplexer is discoverable on the search path.
pub fn has_tmux() -> (found: bool) {
    is_binary_installed("tmux")
}

/// Whether the value of the multiplexer's session variable shows that the
/// process runs inside a session: the variable is set and not blank.
pub open spec fn session_indicated(value: Option<Seq<char>>) -> bool {
    match value {
        Some(text) => !is_blank(text),
        None => false,
    }
}

/// Decides from the value of the `TMUX` variable, if set, whether the process
/// already runs inside a multiplexer session.
pub fn in_tmux_session(value: Option<&str>) -> (inside: bool)
    ensures
        inside == session_indicated(opt_text(value)),
{
    match value {
        Some(text) => !is_blank_str(text),
        None => false,
    }
}

/// The remediation hint shown when the multiplexer is missing.
pub open spec fn install_hint(platform: Platform) -> Seq<char> {
    match platform {
        Platform::Linux | Platform::Wsl => "Install tmux: sudo apt install tmux"@,
        Platform::Mac => "Install tmux: brew install tmux"@,
        Platform::Windows => "Install tmux in WSL, then run TUIHub inside WSL terminal."@,
        Platform::Unknown => "Install tmux for your platform."@,
    }
}

/// The hint how to get the multiplexer on a platform.
pub fn tmux_install_hint(platform: Platform) -> (hint: &'static str)
    ensures
        hint@ == install_hint(platform),
{
    match platform {
        Platform::Linux | Platform::Wsl => "Install tmux: sudo apt install tmux",
        Platform::Mac => "Install tmux: brew install tmux",
        Platform::Windows => "Install tmux in WSL, then run TUIHub inside WSL terminal.",
        Platform::Unknown => "Install tmux for your platform.",
    }
}

/// Whether a character may stand in a session or window name as it is.
pub open spec fn is_name_char(c: char) -> bool {
    ('a' <= c && c <= 'z') || ('A' <= c && c <= 'Z') || ('0' <= c && c <= '9') || c == '-' || c
        == '_'
}

/// A character of an id as it appears in a name: kept if allowed, else a hyphen.
pub open spec fn name_char(c: char) -> char {
    if is_name_char(c) {
        c
    } else {
        '-'
    }
}

/// The position of the first character at or after `from` that is no hyphen,
/// or the length of the text if there is none.
pub open spec fn first_kept(s: Seq<char>, from: nat) -> nat
    decreases s.len() - from,
{
    if from < s.len() && s[from as int] == '-' {
        first_kept(s, from + 1)
    } else {
        from
    }
}

/// The position just behind the last character before `upto` that is no hyphen,
/// or zero if there is none.
pub open spec fn last_kept(s: Seq<char>, upto: nat) -> nat
    decreases upto,
{
    if 0 < upto && upto <= s.len() && s[upto - 1] == '-' {
        last_kept(s, (upto - 1) as nat)
    } else {
        upto
    }
}

/// A text without its leading and trailing hyphens.
pub open spec fn trim_hyphens(s: Seq<char>) -> Seq<char> {
    let start = first_kept(s, 0);
    let end = last_kept(s, s.len());
    if start < end {
        s.subrange(start as int, end as int)
    } else {
        Seq::empty()
    }
}

/// The fixed token that stands for an id of which nothing is left.
pub open spec fn fallback_name() -> Seq<char> {
    "app"@
}

/// The name token derived from an entry id: every character outside
/// `[A-Za-z0-9_-]` becomes a hyphen, hyphens at both ends are dropped, and an
/// empty remainder is replaced by the fallback token.
pub open spec fn sanitized(id: Seq<char>) -> Seq<char> {
    let trimmed = trim_hyphens(id.map_values(|c: char| name_char(c)));
    if trimmed.len() == 0 {
        fallback_name()
    } else {
        trimmed
    }
}

/// What holds of [`first_kept`]: it lies between `from` and the end, only
/// hyphens stand before it, and no hyphen stands at it.
pub proof fn lemma_first_kept(s: Seq<char>, from: nat)
    requires
        from <= s.len(),
    ensures
        from <= first_kept(s, from) <= s.len(),
        first_kept(s, from) < s.len() ==> s[first_kept(s, from) as int] != '-',
        forall|i: int| from <= i < first_kept(s, from) ==> s[i] == '-',
    decreases s.len() - from,
{
    if from < s.len() && s[from as int] == '-' {
        lemma_first_kept(s, from + 1);
    }
}

/// What holds of [`last_kept`]: it lies at or before `upto`, only hyphens stand
/// behind it, and no hyphen stands just before it.
pub proof fn lemma_last_kept(s: Seq<char>, upto: nat)
    requires
        upto <= s.len(),
    ensures
        last_kept(s, upto) <= upto,
        0 < last_kept(s, upto) ==> s[last_kept(s, upto) - 1] != '-',
        forall|i: int| last_kept(s, upto) <= i < upto ==> s[i] == '-',
    decreases upto,
{
    if 0 < upto && s[upto - 1] == '-' {
        lemma_last_kept(s, (upto - 1) as nat);
    }
}

/// A sanitized name is never empty, holds allowed characters only, and neither
/// starts nor ends with a hyphen.
pub proof fn lemma_sanitized_shape(id: Seq<char>)
    ensures
        sanitized(id).len() > 0,
        sanitized(id).first() != '-',
        sanitized(id).last() != '-',
        forall|i: int| 0 <= i < sanitized(id).len() ==> is_name_char(#[trigger] sanitized(id)[i]),
{
    let mapped = id.map_values(|c: char| name_char(c));
    lemma_first_kept(mapped, 0);
    lemma_last_kept(mapped, mapped.len());
    reveal_strlit("app");
    let trimmed = trim_hyphens(mapped);
    if trimmed.len() != 0 {
        let start = first_kept(mapped, 0);
        let end = last_kept(mapped, mapped.len());
        assert(trimmed.first() == mapped[start as int]);
        assert(trimmed.last() == mapped[end - 1]);
        assert forall|i: int| 0 <= i < trimmed.len() implies is_name_char(
            #[trigger] trimmed[i],
        ) by {
            assert(trimmed[i] == name_char(id[start + i]));
        }
    }
}

fn is_allowed(c: char) -> (r: bool)
    ensures
        r == is_name_char(c),
{
    ('a' <= c && c <= 'z') || ('A' <= c && c <= 'Z') || ('0' <= c && c <= '9') || c == '-' || c
        == '_'
}

/// Derives a name token from an entry id: every character outside
/// `[A-Za-z0-9_-]` becomes a hyphen, hyphens at both ends are dropped, and an
/// empty remainder gives the fallback token. The result is never empty and
/// neither starts nor ends with a hyphen.
pub fn sanitize_tmux_name(input: &str) -> (name: String)
    ensures
        name@ == sanitized(input@),
        name@.len() > 0,
        name@.first() != '-',
        name@.last() != '-',
        forall|i: int| 0 <= i < name@.len() ==> is_name_char(#[trigger] name@[i]),
{
    proof {
        lemma_sanitized_shape(input@);
    }
    let raw = chars_of(input);
    let ghost mapped = input@.map_values(|c: char| name_char(c));
    let mut out: Vec<char> = Vec::new();
    let mut i: usize = 0;
    while i < raw.len()
        invariant
            i <= raw.len(),
            raw@ == input@,
            out@ == mapped.take(i as int),
            mapped == input@.map_values(|c: char| name_char(c)),
        decreases raw.len() - i,
    {
        let c = raw[i];
        if is_allowed(c) {
            out.push(c);
        } else {
            out.push('-');
        }
        assert(mapped.take(i + 1) =~= mapped.take(i as int).push(mapped[i as int]));
        i += 1;
    }
    assert(out@ =~= mapped);
    let mut start: usize = 0;
    while start < out.len() && out[start] == '-'
        invariant
            start <= out.len(),
            first_kept(out@, 0) == first_kept(out@, start as nat),
        decreases out.len() - start,
    {
        start += 1;
    }
    let mut end: usize = out.len();
    while end > 0 && out[end - 1] == '-'
        invariant
            end <= out.len(),
            last_kept(out@, out@.len()) == last_kept(out@, end as nat),
        decreases end,
    {
        end -= 1;
    }
    if start >= end {
        return String::from_str("app");
    }
    let mut kept: Vec<char> = Vec::new();
    let mut k: usize = start;
    while k < end
        invariant
            start <= k <= end <= out.len(),
            kept@ == out@.subrange(start as int, k as int),
        decreases end - k,
    {
        kept.push(out[k]);
        assert(out@.subrange(start as int, k + 1) =~= out@.subrange(start as int, k as int).push(
            out@[k as int],
        ));
        k += 1;
    }
    string_of(&kept)
}

/// Reads the system clock with `SystemTime::elapsed` from the Unix epoch, makes
/// a date and time of it with `chrono::DateTime::from_timestamp` and returns its
/// whole seconds since the epoch, as `DateTime::timestamp` gives them. The
/// result is `None` where the clock reads a time before the epoch or beyond the
/// years that a date can hold. The value depends on the moment of the call, so
/// nothing is claimed about it.
#[verifier::external_body]
pub(crate) fn unix_timestamp() -> (seconds: Option<i64>) {
    match std::time::UNIX_EPOCH.elapsed() {
        Ok(passed) => {
            let seconds = passed.as_secs() as i64;
            match chrono::DateTime::from_timestamp(seconds, passed.subsec_nanos()) {
                Some(now) => Some(now.timestamp()),
                None => None,
            }
        },
        Err(_) => None,
    }
}

/// Where a launched entry runs.
#[derive(Debug, Clone, Copy, PartialEq, Eq, Structural)]
pub enum LaunchKind {
    /// A new window of the session the process already runs in.
    Window,
    /// A new detached session.
    Session,
}

/// A launch that is ready to be carried out: the kind of place, its name and
/// the binary to start there.
#[derive(Debug)]
pub struct LaunchPlan {
    pub kind: LaunchKind,
    pub name: String,
    pub binary: String,
}

/// The mathematical content of a [`LaunchPlan`].
pub ghost struct LaunchView {
    pub kind: LaunchKind,
    pub name: Seq<char>,
    pub binary: Seq<char>,
}

impl View for LaunchPlan {
    type V = LaunchView;

    open spec fn view(&self) -> LaunchView {
        LaunchView { kind: self.kind, name: self.name@, binary: self.binary@ }
    }
}

impl Clone for LaunchPlan {
    fn clone(&self) -> (copy: Self)
        ensures
            copy@ == self@,
    {
        LaunchPlan { kind: self.kind, name: self.name.clone(), binary: self.binary.clone() }
    }
}

/// The kind of place a launch uses: a window inside a session, else a session.
pub open spec fn launch_kind(in_session: bool) -> LaunchKind {
    if in_session {
        LaunchKind::Window
    } else {
        LaunchKind::Session
    }
}

/// The part of a launch name that tells the kind of place and the entry: a
/// prefix for the kind, the sanitized id, and the time of the launch.
pub open spec fn launch_stem(id: Seq<char>, timestamp: int, kind: LaunchKind) -> Seq<char> {
    let prefix = match kind {
        LaunchKind::Window => "th-"@,
        LaunchKind::Session => "tuihub-"@,
    };
    prefix + sanitized(id) + "-"@ + signed_decimal(timestamp)
}

/// The name of the window or session for an entry id: the stem, a hyphen, and
/// the serial number of the launch as uniqueness suffix.
pub open spec fn launch_name(id: Seq<char>, timestamp: int, serial: nat, kind: LaunchKind) -> Seq<
    char,
> {
    launch_stem(id, timestamp, kind) + seq!['-'] + decimal(serial)
}

/// Launches with different serial numbers never share a name, whatever the
/// entries, the times and the kinds of place. So repeated launches of one entry
/// do not collide, however close in time they are.
pub proof fn lemma_launch_names_differ(
    id: Seq<char>,
    timestamp: int,
    serial: nat,
    kind: LaunchKind,
    other_id: Seq<char>,
    other_timestamp: int,
    other_serial: nat,
    other_kind: LaunchKind,
)
    requires
        serial != other_serial,
    ensures
        launch_name(id, timestamp, serial, kind) != launch_name(
            other_id,
            other_timestamp,
            other_serial,
            other_kind,
        ),
{
    if launch_name(id, timestamp, serial, kind) == launch_name(
        other_id,
        other_timestamp,
        other_serial,
        other_kind,
    ) {
        lemma_decimal_suffix_tells(
            launch_stem(id, timestamp, kind),
            serial,
            launch_stem(other_id, other_timestamp, other_kind),
            other_serial,
        );
    }
}

/// The launch of an entry at a given time and with a given serial number,
/// inside or outside a session.
pub open spec fn launch_plan_of(
    entry: EntryView,
    timestamp: int,
    serial: nat,
    in_session: bool,
) -> LaunchView {
    LaunchView {
        kind: launch_kind(in_session),
        name: launch_name(entry.id, timestamp, serial, launch_kind(in_session)),
        binary: entry.binary,
    }
}

/// Plans the launch of an entry: a window if the process already runs inside a
/// session, a detached session otherwise, named after the entry, the time and
/// the serial number of the launch.
pub fn plan_launch(entry: &AppEntry, timestamp: i64, serial: u64, in_session: bool) -> (plan:
    LaunchPlan)
    ensures
        plan@ == launch_plan_of(entry@, timestamp as int, serial as nat, in_session),
{
    let safe_name = sanitize_tmux_name(entry.id.as_str());
    let kind = if in_session {
        LaunchKind::Window
    } else {
        LaunchKind::Session
    };
    let mut name = match kind {
        LaunchKind::Window => join3("th-", safe_name.as_str(), "-"),
        LaunchKind::Session => join3("tuihub-", safe_name.as_str(), "-"),
    };
    push_signed_decimal(&mut name, timestamp);
    name.push('-');
    let ghost stem = name@;
    push_decimal(&mut name, serial);
    assert(name@ =~= launch_name(entry@.id, timestamp as int, serial as nat, kind)) by {
        assert(stem =~= launch_stem(entry@.id, timestamp as int, kind) + seq!['-']);
    }
    LaunchPlan { kind, name, binary: entry.binary.clone() }
}

/// The arguments handed to the multiplexer for a launch.
pub open spec fn launch_args(plan: LaunchView) -> Seq<Seq<char>> {
    match plan.kind {
        LaunchKind::Window => seq!["new-window"@, "-n"@, plan.name, plan.binary],
        LaunchKind::Session => seq!["new-session"@, "-d"@, "-s"@, plan.name, plan.binary],
    }
}

impl LaunchPlan {
    /// The arguments of the multiplexer invocation that carries out this launch.
    pub fn args(&self) -> (args: Vec<String>)
        ensures
            args@.map_values(|a: String| a@) == launch_args(self@),
    {
        let mut args: Vec<String> = Vec::new();
        match self.kind {
            LaunchKind::Window => {
                args.push(String::from_str("new-window"));
                args.push(String::from_str("-n"));
            },
            LaunchKind::Session => {
                args.push(String::from_str("new-session"));
                args.push(String::from_str("-d"));
                args.push(String::from_str("-s"));
            },
        }
        args.push(self.name.clone());
        args.push(self.binary.clone());
        assert(args@.map_values(|a: String| a@) =~= launch_args(self@));
        args
    }
}

/// The words for the kind of place in the error of a launch.
pub open spec fn place_word(kind: LaunchKind) -> Seq<char> {
    match kind {
        LaunchKind::Window => "failed to create tmux window '"@,
        LaunchKind::Session => "failed to create tmux session '"@,
    }
}

/// The error text of a launch that did not succeed. It carries the name of the
/// window or session and, for a failed run, the exit status, for a failed
/// start, the reason. `None` on success.
pub open spec fn launch_failure(kind: LaunchKind, name: Seq<char>, outcome: OutcomeView) -> Option<
    Seq<char>,
> {
    match outcome {
        OutcomeView::Succeeded => None,
        OutcomeView::Exited(status) => Some(
            place_word(kind) + name + "' (status: "@ + status + ")"@,
        ),
        OutcomeView::SpawnFailed(reason) => Some(place_word(kind) + name + "': "@ + reason),
    }
}

/// The error of a launch holds the name of the window or session, and with it
/// the exit status of a failed run or the reason of a failed start.
pub proof fn lemma_launch_failure_carries(kind: LaunchKind, name: Seq<char>, outcome: OutcomeView)
    ensures
        launch_failure(kind, name, outcome) is None <==> outcome is Succeeded,
        launch_failure(kind, name, outcome) matches Some(text) ==> contains_text(text, name),
        outcome matches OutcomeView::Exited(status) ==> contains_text(
            launch_failure(kind, name, outcome)->0,
            status,
        ),
        outcome matches OutcomeView::SpawnFailed(reason) ==> contains_text(
            launch_failure(kind, name, outcome)->0,
            reason,
        ),
{
    let head = place_word(kind);
    match outcome {
        OutcomeView::Succeeded => {},
        OutcomeView::Exited(status) => {
            let text = launch_failure(kind, name, outcome)->0;
            lemma_part_occurs(head, name, "' (status: "@ + status + ")"@);
            assert(text =~= head + name + ("' (status: "@ + status + ")"@));
            lemma_part_occurs(head + name + "' (status: "@, status, ")"@);
        },
        OutcomeView::SpawnFailed(reason) => {
            let text = launch_failure(kind, name, outcome)->0;
            lemma_part_occurs(head, name, "': "@ + reason);
            assert(text =~= head + name + ("': "@ + reason));
            lemma_part_occurs(head + name + "': "@, reason, Seq::empty());
            assert(text =~= head + name + "': "@ + reason + Seq::<char>::empty());
        },
    }
}

/// Turns the outcome of a multiplexer invocation for the window or session of
/// the given name into `Ok` or the text of its error. The result is `Ok`
/// exactly for an invocation that ran and reported success.
pub fn launch_result(kind: LaunchKind, name: &str, outcome: &ProcessOutcome) -> (result: Result<
    (),
    String,
>)
    ensures
        result is Ok <==> outcome@ is Succeeded,
        match result {
            Ok(_) => launch_failure(kind, name@, outcome@) is None,
            Err(text) => launch_failure(kind, name@, outcome@) == Some(text@),
        },
        result matches Err(text) ==> contains_text(text@, name@),
{
    proof {
        lemma_launch_failure_carries(kind, name@, outcome@);
    }
    let head = match kind {
        LaunchKind::Window => "failed to create tmux window '",
        LaunchKind::Session => "failed to create tmux session '",
    };
    match outcome {
        ProcessOutcome::Succeeded => Ok(()),
        ProcessOutcome::Exited(status) => Err(
            join5(head, name, "' (status: ", status.as_str(), ")"),
        ),
        ProcessOutcome::SpawnFailed(reason) => Err(join4(head, name, "': ", reason.as_str())),
    }
}

} // verus!
