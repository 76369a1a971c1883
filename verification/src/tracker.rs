use vstd::prelude::*;
use vstd::utf8::encode_utf8;

use crate::config::activity_views;
use crate::config::opt_activity_view;
use crate::config::ActivityDefinition;
use crate::config::ActivityView;
use crate::config::Links;
use crate::config::LinksView;
use crate::config::opt_view;
use crate::presence::opt_links_ref_view;
use crate::presence::presence_buttons;
use crate::presence::presence_buttons_spec;
use crate::presence::hidden_presence;
use crate::presence::hidden_presence_spec;
use crate::presence::Presence;
use crate::presence::PresenceView;
use crate::resolver::opt_resolved_view;
use crate::resolver::resolve_activities;
use crate::resolver::resolved_spec;
use crate::resolver::ResolvedActivity;
use crate::resolver::ResolvedView;
use crate::text::chars_of;
use crate::text::decimal;
use crate::text::ellipsis_dots;
use crate::text::fitting_prefix;
use crate::text::join;
use crate::text::joined;
use crate::text::lemma_fitting_prefix;
use crate::text::lemma_utf8_len_concat;
use crate::text::lemma_utf8_len_push;
use crate::text::push_char;
use crate::text::push_decimal;
use crate::text::string_views;
use crate::text::utf8_len;
use crate::text::utf8_len_exceeds;
use crate::text::utf8_width;

verus! {

/// The longest text Discord takes in one field, in bytes.
pub const MAX_TEXT_BYTES: usize = 128;

/// `n` on two digits at least.
pub open spec fn two_digits(n: nat) -> Seq<char> {
    if n < 10 {
        seq!['0'] + decimal(n)
    } else {
        decimal(n)
    }
}

/// An elapsed time in minutes as shown: `42m`, or `1h05m` from an hour on.
pub open spec fn duration_text(minutes: nat) -> Seq<char> {
    let hours = minutes / 60;
    let rest = minutes % 60;
    if hours == 0 {
        decimal(rest).push('m')
    } else {
        (decimal(hours).push('h') + two_digits(rest)).push('m')
    }
}

/// An elapsed time in minutes as shown to the user.
pub fn format_duration(minutes: u64) -> (r: String)
    ensures
        r@ == duration_text(minutes as nat),
{
    let hours = minutes / 60;
    let remainder = minutes % 60;
    let mut r = String::new();
    if hours == 0 {
        push_decimal(&mut r, remainder as u128);
    } else {
        push_decimal(&mut r, hours as u128);
        push_char(&mut r, 'h');
        if remainder < 10 {
            push_char(&mut r, '0');
        }
        push_decimal(&mut r, remainder as u128);
        assert(r@ =~= decimal(hours as nat).push('h') + two_digits(remainder as nat));
    }
    push_char(&mut r, 'm');
    r
}

/// A text that fits a Discord field: unchanged where its encoding takes at most 128
/// bytes, else cut at a character boundary to at most 125 bytes and ended with `...`.
pub open spec fn fit_text(s: Seq<char>) -> Seq<char> {
    if utf8_len(s) <= MAX_TEXT_BYTES {
        s
    } else {
        fitting_prefix(s, MAX_TEXT_BYTES - 3) + ellipsis_dots()
    }
}

/// Cuts `text` to fit a Discord field of 128 bytes.
pub fn fit_discord_text(text: String) -> (r: String)
    ensures
        r@ == fit_text(text@),
        utf8_len(r@) <= MAX_TEXT_BYTES,
        r@ == text@ || (3 <= r@.len() && r@ == text@.take(r@.len() - 3) + ellipsis_dots()),
{
    if !utf8_len_exceeds(text.as_str(), MAX_TEXT_BYTES) {
        return text;
    }
    let ghost s = text@;
    let budget: usize = MAX_TEXT_BYTES - 3;
    let v = chars_of(text.as_str());
    let mut used: usize = 0;
    let mut k: usize = 0;
    assert(s.skip(0) =~= s);
    assert(s.take(0) =~= Seq::<char>::empty());
    assert(encode_utf8(Seq::<char>::empty()) =~= Seq::<u8>::empty());
    assert(s.take(0) + fitting_prefix(s.skip(0), budget as int) =~= fitting_prefix(s, budget as int));
    while k < v.len() && utf8_width(v[k]) <= budget - used
        invariant
            k <= v@.len(),
            v@ == s,
            used <= budget,
            budget == MAX_TEXT_BYTES - 3,
            used == utf8_len(s.take(k as int)),
            fitting_prefix(s, budget as int) == s.take(k as int) + fitting_prefix(
                s.skip(k as int),
                budget - used,
            ),
        decreases v@.len() - k,
    {
        let w = utf8_width(v[k]);
        proof {
            let rest = s.skip(k as int);
            assert(rest[0] == s[k as int]);
            assert(rest.drop_first() =~= s.skip(k + 1 as int));
            assert(s.take(k + 1 as int) =~= s.take(k as int).push(s[k as int]));
            lemma_utf8_len_push(s.take(k as int), s[k as int]);
            assert(s.take(k as int) + (seq![s[k as int]] + fitting_prefix(
                s.skip(k + 1 as int),
                budget - used - w,
            )) =~= s.take(k + 1 as int) + fitting_prefix(s.skip(k + 1 as int), budget - used - w));
        }
        used = used + w;
        k += 1;
    }
    proof {
        assert(fitting_prefix(s.skip(k as int), budget - used) =~= Seq::<char>::empty());
        assert(s.take(k as int) + Seq::<char>::empty() =~= s.take(k as int));
    }
    let mut r = String::from_str(text.as_str().substring_char(0, k));
    r.append("...");
    proof {
        reveal_strlit("...");
        assert(r@ =~= fit_text(s));
        lemma_fitting_prefix(s, budget as int);
        lemma_utf8_len_concat(s.take(k as int), ellipsis_dots());
        assert(utf8_len(ellipsis_dots()) == 3) by {
            lemma_utf8_len_push(seq!['.', '.'], '.');
            lemma_utf8_len_push(seq!['.'], '.');
            lemma_utf8_len_push(Seq::<char>::empty(), '.');
            assert(Seq::<char>::empty().push('.') =~= seq!['.']);
            assert(seq!['.'].push('.') =~= seq!['.', '.']);
            assert(seq!['.', '.'].push('.') =~= ellipsis_dots());
        }
    }
    r
}

/// The line printed when what is detected changes.
pub open spec fn change_text(names: Option<Seq<Seq<char>>>) -> Seq<char> {
    match names {
        Some(n) => "Detected: "@ + joined(n, " + "@),
        None => "No configured activity detected."@,
    }
}

/// The line to print when what is detected changes.
pub fn change_message(activity: Option<&ResolvedActivity>) -> (r: String)
    ensures
        r@ == change_text(
            match activity {
                Some(a) => Some(string_views(a.names@)),
                None => None,
            },
        ),
{
    match activity {
        Some(activity) => {
            let mut r = String::from_str("Detected: ");
            let names = join(activity.names.as_slice(), " + ");
            r.append(names.as_str());
            r
        },
        None => String::from_str("No configured activity detected."),
    }
}


/// How long a published presence stays good before it is sent again, in milliseconds.
pub const PRESENCE_REFRESH_MS: u64 = 60_000;

/// How long each detected activity stays the selected one, in seconds.
pub const IMAGE_ROTATION_SECONDS: u64 = 30;

/// The milliseconds from `since` to `now`, or zero where `now` is earlier.
pub open spec fn elapsed_ms(now: u64, since: u64) -> nat {
    if now >= since {
        (now - since) as nat
    } else {
        0
    }
}

/// The index of the first definition named `name`.
pub open spec fn definition_index(defs: Seq<ActivityView>, name: Seq<char>) -> Option<int>
    decreases defs.len(),
{
    if defs.len() == 0 {
        None
    } else if defs[0].name == name {
        Some(0)
    } else {
        match definition_index(defs.drop_first(), name) {
            Some(j) => Some(j + 1),
            None => None,
        }
    }
}

/// A found index is in range and names `name`; where none is found, no definition has
/// that name.
pub proof fn lemma_definition_index(defs: Seq<ActivityView>, name: Seq<char>)
    ensures
        match definition_index(defs, name) {
            Some(j) => 0 <= j < defs.len() && defs[j].name == name && forall|k: int|
                0 <= k < j ==> #[trigger] defs[k].name != name,
            None => forall|k: int| 0 <= k < defs.len() ==> #[trigger] defs[k].name != name,
        },
    decreases defs.len(),
{
    if defs.len() > 0 {
        lemma_definition_index(defs.drop_first(), name);
        if defs[0].name != name {
            assert forall|k: int| 1 <= k < defs.len() implies #[trigger] defs[k].name == defs.drop_first()[k - 1].name by {}
        }
    }
}

/// The first definition named `name`.
pub open spec fn definition_named(defs: Seq<ActivityView>, name: Seq<char>) -> Option<
    ActivityView,
> {
    match definition_index(defs, name) {
        Some(j) => Some(defs[j]),
        None => None,
    }
}

/// An optional text, or `default` where it is absent.
pub open spec fn or_default(o: Option<Seq<char>>, default: Seq<char>) -> Seq<char> {
    match o {
        Some(t) => t,
        None => default,
    }
}

/// The image shown for the activity `name`.
pub open spec fn image_of(defs: Seq<ActivityView>, name: Seq<char>) -> Seq<char> {
    match definition_named(defs, name) {
        Some(d) => or_default(d.image, "tracker"@),
        None => "tracker"@,
    }
}

/// The hover text of the image: the selected activity and its elapsed time.
pub open spec fn hover_text(selected: Seq<char>, elapsed: Seq<char>) -> Seq<char> {
    fit_text(selected + " · "@ + elapsed)
}

/// The presence published while activities are detected: the two lines of the
/// resolved activities, the image and hover text of the selected one, the session
/// start, and the buttons shown with the selected one.
pub open spec fn visible_presence_spec(
    defs: Seq<ActivityView>,
    links: Option<LinksView>,
    resolved: ResolvedView,
    selected: Seq<char>,
    minutes: nat,
    session: i64,
) -> PresenceView {
    PresenceView {
        details: resolved.details,
        state: resolved.state,
        image: Some(image_of(defs, selected)),
        hover: Some(hover_text(selected, duration_text(minutes))),
        started_at: Some(session),
        buttons: presence_buttons_spec(definition_named(defs, selected), links),
    }
}

/// The index of the first definition named `name`.
pub fn find_definition(definitions: &[ActivityDefinition], name: &String) -> (r: Option<usize>)
    ensures
        match r {
            Some(j) => definition_index(activity_views(definitions@), name@) == Some(j as int) && j
                < definitions@.len(),
            None => definition_index(activity_views(definitions@), name@) is None,
        },
{
    proof {
        lemma_definition_index(activity_views(definitions@), name@);
    }
    let ghost defs = activity_views(definitions@);
    let mut i: usize = 0;
    assert(defs.skip(0) =~= defs);
    while i < definitions.len()
        invariant
            i <= definitions@.len(),
            defs == activity_views(definitions@),
            definition_index(defs, name@) == match definition_index(defs.skip(i as int), name@) {
                Some(j) => Some(j + i),
                None => None::<int>,
            },
        decreases definitions@.len() - i,
    {
        assert(defs.skip(i as int)[0] == definitions@[i as int]@);
        if definitions[i].name == *name {
            return Some(i);
        }
        assert(defs.skip(i as int).drop_first() =~= defs.skip(i + 1 as int));
        i += 1;
    }
    None
}

/// An optional text as a new string, or `default` where it is absent.
fn text_or(o: &Option<String>, default: &str) -> (r: String)
    ensures
        r@ == or_default(opt_view(*o), default@),
{
    match o {
        Some(t) => t.clone(),
        None => String::from_str(default),
    }
}

/// The presence published for `resolved`, showing the image of `selected` after
/// `minutes` minutes.
pub fn visible_presence(
    definitions: &[ActivityDefinition],
    links: Option<&Links>,
    resolved: &ResolvedActivity,
    selected: &String,
    minutes: u64,
    session: i64,
) -> (r: Presence)
    ensures
        r@ == visible_presence_spec(
            activity_views(definitions@),
            opt_links_ref_view(links),
            resolved@,
            selected@,
            minutes as nat,
            session,
        ),
{
    let ghost defs = activity_views(definitions@);
    let found = find_definition(definitions, selected);
    let definition: Option<&ActivityDefinition> = match found {
        Some(j) => Some(&definitions[j]),
        None => None,
    };
    assert(opt_activity_view(definition) == definition_named(defs, selected@));
    let image = match definition {
        Some(d) => text_or(&d.image, "tracker"),
        None => String::from_str("tracker"),
    };
    let elapsed = format_duration(minutes);
    let mut hover = selected.clone();
    hover.append(" · ");
    hover.append(elapsed.as_str());
    let hover = fit_discord_text(hover);
    let buttons = presence_buttons(definition, links);
    Presence {
        details: resolved.details.clone(),
        state: resolved.state.clone(),
        image: Some(image),
        hover: Some(hover),
        started_at: Some(session),
        buttons,
    }
}

/// What to do with Discord after one look at the running processes.
pub enum Publish {
    /// Nothing changed and no refresh is due.
    Nothing,
    /// Clear the presence.
    Clear,
    /// Publish this presence for the selected activity.
    Show { presence: Presence, selected: String },
}

/// The model of what to do with Discord.
pub enum PublishView {
    Nothing,
    Clear,
    Show(PresenceView, Seq<char>),
}

impl View for Publish {
    type V = PublishView;

    open spec fn view(&self) -> PublishView {
        match self {
            Publish::Nothing => PublishView::Nothing,
            Publish::Clear => PublishView::Clear,
            Publish::Show { presence, selected } => PublishView::Show(presence@, selected@),
        }
    }
}

/// The outcome of one look: the line to print where what is detected changed, and what
/// to do with Discord.
pub struct Step {
    pub change: Option<String>,
    pub publish: Publish,
}

/// The model of a step.
pub struct StepView {
    pub change: Option<Seq<char>>,
    pub publish: PublishView,
}

impl View for Step {
    type V = StepView;

    open spec fn view(&self) -> StepView {
        StepView { change: opt_view(self.change), publish: self.publish@ }
    }
}

/// The decisions of the tracking loop: what is shown, since when, and when Discord was
/// last updated. The caller does the waiting, the process scan and the talking to Discord.
pub struct Tracker {
    current: Option<ResolvedActivity>,
    starts: Vec<u64>,
    session_started_at: Option<i64>,
    rotation_started_at: u64,
    last_successful_send: Option<u64>,
    hidden_presence_applied: bool,
}

/// The model of the tracker. `starts[i]` is when the activity `current.names[i]` was
/// first seen in the running visible session.
pub struct TrackerView {
    pub current: Option<ResolvedView>,
    pub starts: Seq<u64>,
    pub session_started_at: Option<i64>,
    pub rotation_started_at: u64,
    pub last_successful_send: Option<u64>,
    pub hidden_presence_applied: bool,
}

impl View for Tracker {
    type V = TrackerView;

    closed spec fn view(&self) -> TrackerView {
        TrackerView {
            current: opt_resolved_view(self.current),
            starts: self.starts@,
            session_started_at: self.session_started_at,
            rotation_started_at: self.rotation_started_at,
            last_successful_send: self.last_successful_send,
            hidden_presence_applied: self.hidden_presence_applied,
        }
    }
}

/// A start time for each shown activity, and something shown only where at least one
/// activity is detected.
pub open spec fn tracker_wf(t: TrackerView) -> bool {
    match t.current {
        Some(r) => r.names.len() > 0 && t.starts.len() == r.names.len(),
        None => t.starts.len() == 0,
    }
}

/// The names currently shown.
pub open spec fn shown_names(t: TrackerView) -> Seq<Seq<char>> {
    match t.current {
        Some(r) => r.names,
        None => Seq::<Seq<char>>::empty(),
    }
}

/// When `name` was first seen, by the first entry of `names` equal to it.
pub open spec fn start_for(names: Seq<Seq<char>>, starts: Seq<u64>, name: Seq<char>) -> Option<u64>
    decreases names.len(),
{
    if names.len() == 0 || starts.len() == 0 {
        None
    } else if names[0] == name {
        Some(starts[0])
    } else {
        start_for(names.drop_first(), starts.drop_first(), name)
    }
}

/// The start times after a look: an activity seen before keeps its start, a new one
/// starts `now`.
pub open spec fn carried_starts(
    old_names: Seq<Seq<char>>,
    old_starts: Seq<u64>,
    names: Seq<Seq<char>>,
    now: u64,
) -> Seq<u64> {
    Seq::new(
        names.len(),
        |i: int|
            match start_for(old_names, old_starts, names[i]) {
                Some(t) => t,
                None => now,
            },
    )
}

/// The tracker as a visible look finds it: coming back from hidden mode restarts the
/// rotation and forgets the last send.
pub open spec fn resumed(t: TrackerView, now: u64) -> TrackerView {
    if t.hidden_presence_applied {
        TrackerView {
            hidden_presence_applied: false,
            rotation_started_at: now,
            last_successful_send: None,
            ..t
        }
    } else {
        t
    }
}

/// Whether the presence is due to be sent again.
pub open spec fn refresh_due(t: TrackerView, now: u64) -> bool {
    match t.last_successful_send {
        None => true,
        Some(sent) => elapsed_ms(now, sent) >= PRESENCE_REFRESH_MS,
    }
}

/// Which detected activity is selected, rotating every thirty seconds.
pub open spec fn rotation_index(rotation_started_at: u64, now: u64, count: nat) -> int {
    ((elapsed_ms(now, rotation_started_at) / 1000) / (IMAGE_ROTATION_SECONDS as nat)) as int
        % (count as int)
}

/// The tracker after one visible look at the running processes. A change of the
/// detected activities restarts the rotation and the session.
pub open spec fn observed(
    t: TrackerView,
    defs: Seq<ActivityView>,
    running: Seq<Seq<char>>,
    now: u64,
    unix_ms: i64,
) -> TrackerView {
    let t1 = resumed(t, now);
    let detected = resolved_spec(defs, running);
    let changed = detected != t1.current;
    let rotation = if changed {
        now
    } else {
        t1.rotation_started_at
    };
    match detected {
        None => TrackerView {
            current: None,
            starts: Seq::<u64>::empty(),
            session_started_at: None,
            rotation_started_at: rotation,
            last_successful_send: t1.last_successful_send,
            hidden_presence_applied: false,
        },
        Some(r) => TrackerView {
            current: Some(r),
            starts: carried_starts(shown_names(t1), t1.starts, r.names, now),
            session_started_at: if changed {
                Some(unix_ms)
            } else {
                match t1.session_started_at {
                    Some(s) => Some(s),
                    None => Some(unix_ms),
                }
            },
            rotation_started_at: rotation,
            last_successful_send: t1.last_successful_send,
            hidden_presence_applied: false,
        },
    }
}

/// What one visible look decides: the change line where what is detected changed, and
/// clearing or publishing only where what is detected changed or a refresh is due.
pub open spec fn observed_step(
    t: TrackerView,
    defs: Seq<ActivityView>,
    links: Option<LinksView>,
    running: Seq<Seq<char>>,
    now: u64,
    unix_ms: i64,
) -> StepView {
    let t1 = resumed(t, now);
    let detected = resolved_spec(defs, running);
    let changed = detected != t1.current;
    let due = refresh_due(t1, now);
    let after = observed(t, defs, running, now, unix_ms);
    let change = if changed {
        Some(
            change_text(
                match detected {
                    Some(r) => Some(r.names),
                    None => None,
                },
            ),
        )
    } else {
        None
    };
    match detected {
        None => StepView {
            change,
            publish: if changed || due {
                PublishView::Clear
            } else {
                PublishView::Nothing
            },
        },
        Some(r) => {
            let index = rotation_index(after.rotation_started_at, now, r.names.len());
            let selected = r.names[index];
            let minutes = (elapsed_ms(now, after.starts[index]) / 1000) / 60;
            StepView {
                change,
                publish: if changed || due {
                    PublishView::Show(
                        visible_presence_spec(
                            defs,
                            links,
                            r,
                            selected,
                            minutes,
                            after.session_started_at->0,
                        ),
                        selected,
                    )
                } else {
                    PublishView::Nothing
                },
            }
        },
    }
}

/// The tracker as hidden mode leaves it: nothing shown, no session, no record of a
/// send.
pub open spec fn hidden_state(t: TrackerView) -> TrackerView {
    TrackerView {
        current: None,
        starts: Seq::<u64>::empty(),
        session_started_at: None,
        last_successful_send: None,
        ..t
    }
}

/// What a hidden look publishes: the hidden presence, unless it was already published.
pub open spec fn hidden_publish(t: TrackerView, links: Option<LinksView>) -> Option<PresenceView> {
    if t.hidden_presence_applied {
        None
    } else {
        Some(hidden_presence_spec(links))
    }
}

/// The tracker after publishing the hidden presence succeeded or failed.
pub open spec fn recorded_hidden(t: TrackerView, ok: bool) -> TrackerView {
    TrackerView { hidden_presence_applied: t.hidden_presence_applied || ok, ..t }
}

/// The tracker after Discord answered: a success records when, a failure forgets when
/// it last succeeded.
pub open spec fn after_send(t: TrackerView, ok: bool, now: u64) -> TrackerView {
    if ok {
        TrackerView { last_successful_send: Some(now), ..t }
    } else {
        TrackerView { last_successful_send: None, ..t }
    }
}

/// Whether two lists of strings hold the same texts.
fn same_strings(a: &[String], b: &[String]) -> (r: bool)
    ensures
        r == (string_views(a@) == string_views(b@)),
{
    if a.len() != b.len() {
        assert(string_views(a@).len() != string_views(b@).len());
        return false;
    }
    let mut i: usize = 0;
    while i < a.len()
        invariant
            i <= a@.len() == b@.len(),
            forall|j: int| 0 <= j < i ==> #[trigger] a@[j]@ == b@[j]@,
        decreases a@.len() - i,
    {
        if a[i] != b[i] {
            assert(string_views(a@)[i as int] != string_views(b@)[i as int]);
            return false;
        }
        i += 1;
    }
    assert(string_views(a@) =~= string_views(b@));
    true
}

/// Whether two optional resolved activities are the same.
fn same_resolved(a: &Option<ResolvedActivity>, b: &Option<ResolvedActivity>) -> (r: bool)
    ensures
        r == (opt_resolved_view(*a) == opt_resolved_view(*b)),
{
    match (a, b) {
        (Some(x), Some(y)) => {
            let names = same_strings(x.names.as_slice(), y.names.as_slice());
            let r = names && x.details == y.details && x.state == y.state;
            if r {
                assert(x@ == y@);
            }
            r
        },
        (None, None) => true,
        _ => false,
    }
}

/// Saturating difference of two clock readings.
fn elapsed_between(now: u64, since: u64) -> (r: u64)
    ensures
        r == elapsed_ms(now, since),
{
    if now >= since {
        now - since
    } else {
        0
    }
}

impl Tracker {
    /// Each shown activity has its start time.
    #[verifier::type_invariant]
    spec fn well_formed(self) -> bool {
        tracker_wf(self@)
    }

    /// Replaces what is shown and the start times together, keeping the rest.
    fn show(&mut self, current: Option<ResolvedActivity>, starts: Vec<u64>)
        requires
            tracker_wf(
                TrackerView {
                    current: opt_resolved_view(current),
                    starts: starts@,
                    ..old(self)@
                },
            ),
        ensures
            final(self)@ == (TrackerView {
                current: opt_resolved_view(current),
                starts: starts@,
                ..old(self)@
            }),
    {
        *self = Tracker {
            current,
            starts,
            session_started_at: self.session_started_at,
            rotation_started_at: self.rotation_started_at,
            last_successful_send: self.last_successful_send,
            hidden_presence_applied: self.hidden_presence_applied,
        };
    }

    /// A tracker that shows nothing yet; `now_ms` is the monotonic clock reading.
    pub fn new(now_ms: u64) -> (r: Tracker)
        ensures
            tracker_wf(r@),
            r@ == (TrackerView {
                current: None,
                starts: Seq::<u64>::empty(),
                session_started_at: None,
                rotation_started_at: now_ms,
                last_successful_send: None,
                hidden_presence_applied: false,
            }),
    {
        Tracker {
            current: None,
            starts: Vec::new(),
            session_started_at: None,
            rotation_started_at: now_ms,
            last_successful_send: None,
            hidden_presence_applied: false,
        }
    }

    /// The start times carried over to the activities in `names`.
    fn carry_starts(&self, names: &[String], now_ms: u64) -> (r: Vec<u64>)
        requires
            tracker_wf(self@),
        ensures
            r@ == carried_starts(shown_names(self@), self@.starts, string_views(names@), now_ms),
    {
        let mut r: Vec<u64> = Vec::new();
        let mut i: usize = 0;
        while i < names.len()
            invariant
                i <= names@.len(),
                tracker_wf(self@),
                r@.len() == i,
                forall|j: int|
                    0 <= j < i ==> #[trigger] r@[j] == carried_starts(
                        shown_names(self@),
                        self@.starts,
                        string_views(names@),
                        now_ms,
                    )[j],
            decreases names@.len() - i,
        {
            r.push(self.start_of(&names[i], now_ms));
            i += 1;
        }
        assert(r@ =~= carried_starts(shown_names(self@), self@.starts, string_views(names@), now_ms));
        r
    }

    /// When `name` was first seen, or `now_ms` where it is not shown.
    fn start_of(&self, name: &String, now_ms: u64) -> (r: u64)
        requires
            tracker_wf(self@),
        ensures
            r == match start_for(shown_names(self@), self@.starts, name@) {
                Some(t) => t,
                None => now_ms,
            },
    {
        match &self.current {
            None => now_ms,
            Some(current) => {
                let ghost names = shown_names(self@);
                let ghost starts = self@.starts;
                let mut i: usize = 0;
                assert(names.skip(0) =~= names);
                assert(starts.skip(0) =~= starts);
                while i < current.names.len()
                    invariant
                        i <= current.names@.len(),
                        names == string_views(current.names@),
                        names == shown_names(self@),
                        starts == self@.starts,
                        starts == self.starts@,
                        starts.len() == names.len(),
                        start_for(names, starts, name@) == start_for(
                            names.skip(i as int),
                            starts.skip(i as int),
                            name@,
                        ),
                    decreases current.names@.len() - i,
                {
                    assert(names.skip(i as int)[0] == current.names@[i as int]@);
                    assert(starts.skip(i as int)[0] == starts[i as int]);
                    if current.names[i] == *name {
                        assert(names.skip(i as int).len() > 0);
                        assert(starts.skip(i as int).len() > 0);
                        return self.starts[i];
                    }
                    assert(names.skip(i as int).drop_first() =~= names.skip(i + 1 as int));
                    assert(starts.skip(i as int).drop_first() =~= starts.skip(i + 1 as int));
                    i += 1;
                }
                now_ms
            },
        }
    }

    /// Enters or stays in hidden mode. Forgets what is shown, the session and what was
    /// sent; returns the hidden presence where it has not been published yet.
    pub fn enter_hidden(&mut self, links: Option<&Links>) -> (r: Option<Presence>)
        ensures
            tracker_wf(final(self)@),
            final(self)@ == hidden_state(old(self)@),
            match r {
                Some(p) => hidden_publish(old(self)@, opt_links_ref_view(links)) == Some(p@),
                None => hidden_publish(old(self)@, opt_links_ref_view(links)) is None,
            },
    {
        proof {
            use_type_invariant(&*self);
        }
        self.show(None, Vec::new());
        self.session_started_at = None;
        self.last_successful_send = None;
        if self.hidden_presence_applied {
            None
        } else {
            Some(hidden_presence(links))
        }
    }

    /// Records whether publishing the hidden presence succeeded.
    pub fn record_hidden(&mut self, ok: bool)
        ensures
            tracker_wf(final(self)@),
            final(self)@ == recorded_hidden(old(self)@, ok),
    {
        proof {
            use_type_invariant(&*self);
        }
        if ok {
            self.hidden_presence_applied = true;
        }
    }

    /// Records whether Discord took the clearing or the presence sent at `now_ms`.
    pub fn record_send(&mut self, ok: bool, now_ms: u64)
        ensures
            tracker_wf(final(self)@),
            final(self)@ == after_send(old(self)@, ok, now_ms),
    {
        proof {
            use_type_invariant(&*self);
        }
        if ok {
            self.last_successful_send = Some(now_ms);
        } else {
            self.last_successful_send = None;
        }
    }

    /// One visible look: `running` holds the normalized names of the running processes,
    /// `now_ms` the monotonic clock and `unix_ms` the wall clock. Updates what is shown
    /// and decides what to send.
    pub fn observe(
        &mut self,
        definitions: &[ActivityDefinition],
        links: Option<&Links>,
        running: &[String],
        now_ms: u64,
        unix_ms: i64,
    ) -> (r: Step)
        ensures
            tracker_wf(final(self)@),
            final(self)@ == observed(
                old(self)@,
                activity_views(definitions@),
                string_views(running@),
                now_ms,
                unix_ms,
            ),
            r@ == observed_step(
                old(self)@,
                activity_views(definitions@),
                opt_links_ref_view(links),
                string_views(running@),
                now_ms,
                unix_ms,
            ),
    {
        proof {
            use_type_invariant(&*self);
        }
        let ghost defs = activity_views(definitions@);
        let ghost run = string_views(running@);
        if self.hidden_presence_applied {
            self.hidden_presence_applied = false;
            self.rotation_started_at = now_ms;
            self.last_successful_send = None;
        }
        let ghost t1 = self@;
        assert(t1 == resumed(old(self)@, now_ms));
        let detected = resolve_activities(definitions, running);
        let changed = !same_resolved(&detected, &self.current);
        if changed {
            self.rotation_started_at = now_ms;
        }
        let change = if changed {
            Some(change_message(detected.as_ref()))
        } else {
            None
        };
        let due = match self.last_successful_send {
            None => true,
            Some(sent) => elapsed_between(now_ms, sent) >= PRESENCE_REFRESH_MS,
        };
        match detected {
            None => {
                self.show(None, Vec::new());
                self.session_started_at = None;
                let publish = if changed || due {
                    Publish::Clear
                } else {
                    Publish::Nothing
                };
                Step { change, publish }
            },
            Some(resolved) => {
                if changed || self.session_started_at.is_none() {
                    self.session_started_at = Some(unix_ms);
                }
                let starts = self.carry_starts(resolved.names.as_slice(), now_ms);
                let count = resolved.names.len();
                let rotation_seconds = elapsed_between(now_ms, self.rotation_started_at) / 1000;
                let index = ((rotation_seconds / IMAGE_ROTATION_SECONDS) % (count as u64)) as usize;
                let selected = resolved.names[index].clone();
                let minutes = (elapsed_between(now_ms, starts[index]) / 1000) / 60;
                let session = match self.session_started_at {
                    Some(s) => s,
                    None => unix_ms,
                };
                let publish = if changed || due {
                    let presence = visible_presence(
                        definitions,
                        links,
                        &resolved,
                        &selected,
                        minutes,
                        session,
                    );
                    Publish::Show { presence, selected }
                } else {
                    Publish::Nothing
                };
                self.show(Some(resolved), starts);
                Step { change, publish }
            },
        }
    }
}


/// `start_for` finds the first entry named `name`.
pub proof fn lemma_start_for(names: Seq<Seq<char>>, starts: Seq<u64>, name: Seq<char>)
    requires
        starts.len() == names.len(),
    ensures
        match start_for(names, starts, name) {
            Some(t) => exists|j: int|
                0 <= j < names.len() && names[j] == name && starts[j] == t && forall|k: int|
                    0 <= k < j ==> #[trigger] names[k] != name,
            None => forall|k: int| 0 <= k < names.len() ==> #[trigger] names[k] != name,
        },
    decreases names.len(),
{
    if names.len() > 0 {
        lemma_start_for(names.drop_first(), starts.drop_first(), name);
        if names[0] != name {
            match start_for(names, starts, name) {
                Some(t) => {
                    let j = choose|j: int|
                        0 <= j < names.len() - 1 && names.drop_first()[j] == name
                            && starts.drop_first()[j] == t && forall|k: int|
                            0 <= k < j ==> #[trigger] names.drop_first()[k] != name;
                    assert forall|k: int| 0 <= k < j + 1 implies #[trigger] names[k] != name by {
                        if k > 0 {
                            assert(names[k] == names.drop_first()[k - 1]);
                        }
                    }
                    assert(names[j + 1] == name && starts[j + 1] == t);
                },
                None => {
                    assert forall|k: int| 0 <= k < names.len() implies #[trigger] names[k]
                        != name by {
                        if k > 0 {
                            assert(names[k] == names.drop_first()[k - 1]);
                        }
                    }
                },
            }
        }
    }
}

/// Rotating between detected activities never resets how long one has run: an activity
/// that stays detected keeps the time it was first seen, and one newly detected starts
/// at the time of the look.
pub proof fn law_detected_activity_keeps_its_start(
    t: TrackerView,
    defs: Seq<ActivityView>,
    running: Seq<Seq<char>>,
    now: u64,
    unix_ms: i64,
    name: Seq<char>,
)
    requires
        tracker_wf(t),
        resolved_spec(defs, running) is Some,
        resolved_spec(defs, running)->0.names.contains(name),
    ensures
        start_for(
            shown_names(observed(t, defs, running, now, unix_ms)),
            observed(t, defs, running, now, unix_ms).starts,
            name,
        ) == match start_for(shown_names(t), t.starts, name) {
            Some(s) => Some(s),
            None => Some(now),
        },
{
    let after = observed(t, defs, running, now, unix_ms);
    let r = resolved_spec(defs, running)->0;
    let t1 = resumed(t, now);
    assert(shown_names(t1) == shown_names(t) && t1.starts == t.starts);
    assert(after.starts.len() == r.names.len());
    lemma_start_for(r.names, after.starts, name);
    let i = choose|i: int| 0 <= i < r.names.len() && r.names[i] == name;
    match start_for(r.names, after.starts, name) {
        Some(found) => {
            let j = choose|j: int|
                0 <= j < r.names.len() && r.names[j] == name && after.starts[j] == found
                    && forall|k: int| 0 <= k < j ==> #[trigger] r.names[k] != name;
            assert(after.starts[j] == carried_starts(shown_names(t1), t1.starts, r.names, now)[j]);
        },
        None => {
            assert(r.names[i] != name);
        },
    }
}

/// After the hidden presence was published successfully, the next hidden look
/// publishes nothing: `enter_hidden` after `record_hidden(true)` returns `None`.
pub proof fn law_hidden_presence_published_once(t: TrackerView, links: Option<LinksView>)
    requires
        tracker_wf(t),
    ensures
        hidden_publish(recorded_hidden(hidden_state(t), true), links) is None,
        hidden_state(recorded_hidden(hidden_state(t), true)) == recorded_hidden(
            hidden_state(t),
            true,
        ),
{
}

/// The first visible look after hidden mode always sends something to Discord: it
/// clears the hidden presence or replaces it.
pub proof fn law_first_look_after_hidden_sends(
    t: TrackerView,
    defs: Seq<ActivityView>,
    links: Option<LinksView>,
    running: Seq<Seq<char>>,
    now: u64,
    unix_ms: i64,
)
    requires
        tracker_wf(t),
        t.hidden_presence_applied,
    ensures
        !(observed_step(t, defs, links, running, now, unix_ms).publish is Nothing),
{
    assert(refresh_due(resumed(t, now), now));
}

/// Without a successful send for a minute, every visible look sends something: the
/// presence is refreshed even when nothing changed.
pub proof fn law_refresh_after_a_minute(
    t: TrackerView,
    defs: Seq<ActivityView>,
    links: Option<LinksView>,
    running: Seq<Seq<char>>,
    now: u64,
    unix_ms: i64,
)
    requires
        tracker_wf(t),
        match t.last_successful_send {
            Some(sent) => elapsed_ms(now, sent) >= PRESENCE_REFRESH_MS,
            None => true,
        },
    ensures
        !(observed_step(t, defs, links, running, now, unix_ms).publish is Nothing),
{
    assert(refresh_due(resumed(t, now), now));
}

/// A send that failed is retried at the next visible look.
pub proof fn law_failed_send_is_retried(
    t: TrackerView,
    now: u64,
    defs: Seq<ActivityView>,
    links: Option<LinksView>,
    running: Seq<Seq<char>>,
    later: u64,
    unix_ms: i64,
)
    requires
        tracker_wf(t),
    ensures
        !(observed_step(after_send(t, false, now), defs, links, running, later, unix_ms).publish is Nothing),
{
    assert(refresh_due(resumed(after_send(t, false, now), later), later));
}

/// Discord is updated only when the detected activities change or the refresh is due:
/// with the same activities detected and a send less than a minute ago, nothing is sent
/// and nothing is printed.
pub proof fn law_updates_only_on_change_or_refresh(
    t: TrackerView,
    defs: Seq<ActivityView>,
    links: Option<LinksView>,
    running: Seq<Seq<char>>,
    now: u64,
    unix_ms: i64,
)
    requires
        tracker_wf(t),
        !t.hidden_presence_applied,
        resolved_spec(defs, running) == t.current,
        t.last_successful_send is Some,
        elapsed_ms(now, t.last_successful_send->0) < PRESENCE_REFRESH_MS,
    ensures
        observed_step(t, defs, links, running, now, unix_ms).publish is Nothing,
        observed_step(t, defs, links, running, now, unix_ms).change is None,
{
}

/// A change of the detected activities restarts the session: the presence then counts
/// from the time of that look.
pub proof fn law_session_restarts_when_detected_set_changes(
    t: TrackerView,
    defs: Seq<ActivityView>,
    links: Option<LinksView>,
    running: Seq<Seq<char>>,
    now: u64,
    unix_ms: i64,
)
    requires
        tracker_wf(t),
        resolved_spec(defs, running) is Some,
        resolved_spec(defs, running) != t.current,
    ensures
        observed(t, defs, running, now, unix_ms).session_started_at == Some(unix_ms),
        match observed_step(t, defs, links, running, now, unix_ms).publish {
            PublishView::Show(p, _) => p.started_at == Some(unix_ms) && p.details
                == resolved_spec(defs, running)->0.details && p.state == resolved_spec(
                defs,
                running,
            )->0.state,
            _ => false,
        },
{
    assert(resumed(t, now).current == t.current);
}

/// The elapsed time shown with the selected activity counts from when that activity
/// was first seen, not from a change of the other activities or of the rotation: the
/// hover text of a published presence is the selected name and the minutes since the
/// activity's start kept in the tracker before the look, or since the look itself for
/// an activity seen for the first time. The selected activity is one of those detected.
pub proof fn law_hover_counts_from_the_activity_start(
    t: TrackerView,
    defs: Seq<ActivityView>,
    links: Option<LinksView>,
    running: Seq<Seq<char>>,
    now: u64,
    unix_ms: i64,
)
    requires
        tracker_wf(t),
    ensures
        match observed_step(t, defs, links, running, now, unix_ms).publish {
            PublishView::Show(p, selected) => {
                let since = match start_for(shown_names(t), t.starts, selected) {
                    Some(s) => s,
                    None => now,
                };
                &&& resolved_spec(defs, running) is Some
                &&& resolved_spec(defs, running)->0.names.contains(selected)
                &&& p.hover == Some(
                    fit_text(
                        selected + " · "@ + duration_text((elapsed_ms(now, since) / 1000) / 60),
                    ),
                )
                &&& start_for(
                    shown_names(observed(t, defs, running, now, unix_ms)),
                    observed(t, defs, running, now, unix_ms).starts,
                    selected,
                ) == Some(since)
            },
            _ => true,
        },
{
    let step = observed_step(t, defs, links, running, now, unix_ms);
    if let PublishView::Show(p, selected) = step.publish {
        let r = resolved_spec(defs, running)->0;
        let after = observed(t, defs, running, now, unix_ms);
        let index = rotation_index(after.rotation_started_at, now, r.names.len());
        assert(0 <= index < r.names.len());
        assert(selected == r.names[index]);
        assert(r.names.contains(selected));
        let t1 = resumed(t, now);
        assert(shown_names(t1) == shown_names(t) && t1.starts == t.starts);
        assert(after.starts[index] == carried_starts(shown_names(t1), t1.starts, r.names, now)[index]);
        law_detected_activity_keeps_its_start(t, defs, running, now, unix_ms, selected);
    }
}

/// An activity that turns buttons on and has its own shows exactly its own buttons,
/// whatever the shared links hold; one that turns them off shows none.
pub proof fn law_published_buttons_follow_the_selected_activity(
    t: TrackerView,
    defs: Seq<ActivityView>,
    links: Option<LinksView>,
    running: Seq<Seq<char>>,
    now: u64,
    unix_ms: i64,
)
    requires
        tracker_wf(t),
    ensures
        match observed_step(t, defs, links, running, now, unix_ms).publish {
            PublishView::Show(p, selected) => match definition_named(defs, selected) {
                Some(a) => (a.buttons_enabled && a.buttons.len() > 0 ==> p.buttons == a.buttons)
                    && (!a.buttons_enabled ==> p.buttons.len() == 0),
                None => true,
            },
            _ => true,
        },
{
}

} // verus!
