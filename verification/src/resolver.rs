use vstd::prelude::*;

use crate::config::activity_views;
use crate::config::ActivityDefinition;
use crate::config::ActivityView;
use crate::monitor::normalize_process_name;
use crate::monitor::normalized_process_name;
use crate::text::join;
use crate::text::joined;
use crate::text::push_char;
use crate::text::string_views;

verus! {

/// The longest text Discord shows in one field, in characters.
pub const DISCORD_FIELD_LIMIT: usize = 128;

/// The activities found running: their names in configuration order, and the two
/// lines shown for them.
pub struct ResolvedActivity {
    pub names: Vec<String>,
    pub details: String,
    pub state: String,
}

/// The model of a resolved activity.
pub struct ResolvedView {
    pub names: Seq<Seq<char>>,
    pub details: Seq<char>,
    pub state: Seq<char>,
}

impl View for ResolvedActivity {
    type V = ResolvedView;

    open spec fn view(&self) -> ResolvedView {
        ResolvedView { names: string_views(self.names@), details: self.details@, state: self.state@ }
    }
}

/// `s` cut to at most `max_chars` characters; a cut text ends in `…`.
pub open spec fn truncated(s: Seq<char>, max_chars: nat) -> Seq<char> {
    if s.len() <= max_chars {
        s
    } else {
        s.take(if max_chars > 0 {
            max_chars - 1
        } else {
            0
        }).push('…')
    }
}

/// `value` cut to at most `max_chars` characters, the last of them `…` where it was cut.
pub fn truncate(value: &str, max_chars: usize) -> (r: String)
    ensures
        r@ == truncated(value@, max_chars as nat),
        r@.len() <= if max_chars > 0 {
            max_chars as nat
        } else {
            1
        },
{
    let count = value.unicode_len();
    if count <= max_chars {
        return String::from_str(value);
    }
    let keep = if max_chars > 0 {
        max_chars - 1
    } else {
        0
    };
    let mut r = String::from_str(value.substring_char(0, keep));
    push_char(&mut r, '…');
    r
}

/// Whether one of the activity's process names, normalized, is among `running`.
pub open spec fn is_running(a: ActivityView, running: Seq<Seq<char>>) -> bool {
    exists|i: int|
        0 <= i < a.windows_processes.len() && running.contains(
            normalized_process_name(#[trigger] a.windows_processes[i]),
        )
}

/// The names of the activities found running, in configuration order.
pub open spec fn detected_names(defs: Seq<ActivityView>, running: Seq<Seq<char>>) -> Seq<
    Seq<char>,
>
    decreases defs.len(),
{
    if defs.len() == 0 {
        Seq::<Seq<char>>::empty()
    } else {
        let rest = detected_names(defs.drop_last(), running);
        if is_running(defs.last(), running) {
            rest.push(defs.last().name)
        } else {
            rest
        }
    }
}

/// Whether `a` is `b` with some entries left out, the rest in the same order.
pub open spec fn is_subsequence<A>(a: Seq<A>, b: Seq<A>) -> bool
    decreases b.len(),
{
    if a.len() == 0 {
        true
    } else if b.len() == 0 {
        false
    } else {
        (a.last() == b.last() && is_subsequence(a.drop_last(), b.drop_last())) || is_subsequence(
            a,
            b.drop_last(),
        )
    }
}

/// More running processes never hide an activity: where every process of `r1` also
/// runs in `r2`, the activities detected in `r1` are among those detected in `r2`, in
/// the same order, and something detected in `r1` means something detected in `r2`.
pub proof fn law_more_running_detects_more(
    defs: Seq<ActivityView>,
    r1: Seq<Seq<char>>,
    r2: Seq<Seq<char>>,
)
    requires
        forall|x: Seq<char>| r1.contains(x) ==> r2.contains(x),
    ensures
        is_subsequence(detected_names(defs, r1), detected_names(defs, r2)),
        resolved_spec(defs, r1) is Some ==> resolved_spec(defs, r2) is Some,
    decreases defs.len(),
{
    if defs.len() > 0 {
        law_more_running_detects_more(defs.drop_last(), r1, r2);
        let a = defs.last();
        let rest1 = detected_names(defs.drop_last(), r1);
        let rest2 = detected_names(defs.drop_last(), r2);
        if is_running(a, r1) {
            let i = choose|i: int|
                0 <= i < a.windows_processes.len() && r1.contains(
                    normalized_process_name(#[trigger] a.windows_processes[i]),
                );
            assert(r2.contains(normalized_process_name(a.windows_processes[i])));
            assert(rest1.push(a.name).drop_last() =~= rest1);
            assert(rest2.push(a.name).drop_last() =~= rest2);
        } else if is_running(a, r2) {
            assert(rest2.push(a.name).drop_last() =~= rest2);
        }
    }
    if detected_names(defs, r1).len() > 0 {
        assert(detected_names(defs, r2).len() > 0);
    }
}

/// The first line: the first activity found.
pub open spec fn details_line(names: Seq<Seq<char>>) -> Seq<char> {
    truncated("Active: "@ + names[0], DISCORD_FIELD_LIMIT as nat)
}

/// The second line: the other activities found, or a count where there is no other.
pub open spec fn state_line(names: Seq<Seq<char>>) -> Seq<char> {
    if names.len() == 1 {
        "1 selected activity"@
    } else {
        truncated("Also: "@ + joined(names.skip(1), " + "@), DISCORD_FIELD_LIMIT as nat)
    }
}

/// What is shown for the activities found running among `running`: nothing where none
/// is, else the names in configuration order with the two lines.
pub open spec fn resolved_spec(defs: Seq<ActivityView>, running: Seq<Seq<char>>) -> Option<
    ResolvedView,
> {
    let names = detected_names(defs, running);
    if names.len() == 0 {
        None
    } else {
        Some(ResolvedView { names, details: details_line(names), state: state_line(names) })
    }
}

/// The model of an optional resolved activity.
pub open spec fn opt_resolved_view(o: Option<ResolvedActivity>) -> Option<ResolvedView> {
    match o {
        Some(r) => Some(r@),
        None => None,
    }
}

/// Whether `name` is one of `names`; `running_processes` is searched this way for each
/// normalized process name of a definition.
pub fn contains_name(names: &[String], name: &String) -> (r: bool)
    ensures
        r == string_views(names@).contains(name@),
{
    let ghost views = string_views(names@);
    let mut i: usize = 0;
    while i < names.len()
        invariant
            i <= names@.len(),
            views == string_views(names@),
            forall|j: int| 0 <= j < i ==> views[j] != name@,
        decreases names@.len() - i,
    {
        if names[i] == *name {
            assert(views[i as int] == name@);
            return true;
        }
        i += 1;
    }
    false
}

/// Whether one of the definition's process names, normalized, is among `running`.
fn definition_running(definition: &ActivityDefinition, running: &[String]) -> (r: bool)
    ensures
        r == is_running(definition@, string_views(running@)),
{
    let ghost a = definition@;
    let mut i: usize = 0;
    while i < definition.windows_processes.len()
        invariant
            i <= a.windows_processes.len(),
            a == definition@,
            forall|j: int|
                0 <= j < i ==> !string_views(running@).contains(
                    normalized_process_name(#[trigger] a.windows_processes[j]),
                ),
        decreases a.windows_processes.len() - i,
    {
        let name = normalize_process_name(definition.windows_processes[i].as_str());
        if contains_name(running, &name) {
            assert(a.windows_processes[i as int] == definition.windows_processes@[i as int]@);
            return true;
        }
        i += 1;
    }
    false
}

/// Combines every configured activity found among the running processes into one
/// presence. `running_processes` holds normalized process names. The first activity
/// found, in configuration order, is the primary one; the others make up the second
/// line. Nothing is returned where no activity is running.
pub fn resolve_activities(definitions: &[ActivityDefinition], running_processes: &[String]) -> (r:
    Option<ResolvedActivity>)
    ensures
        opt_resolved_view(r) == resolved_spec(
            activity_views(definitions@),
            string_views(running_processes@),
        ),
{
    let ghost defs = activity_views(definitions@);
    let ghost running = string_views(running_processes@);
    let mut names: Vec<String> = Vec::new();
    let mut i: usize = 0;
    while i < definitions.len()
        invariant
            i <= definitions@.len(),
            defs == activity_views(definitions@),
            running == string_views(running_processes@),
            string_views(names@) == detected_names(defs.take(i as int), running),
        decreases definitions@.len() - i,
    {
        let definition = &definitions[i];
        assert(defs.take(i + 1 as int).drop_last() =~= defs.take(i as int));
        assert(defs.take(i + 1 as int).last() == definition@);
        if definition_running(definition, running_processes) {
            names.push(definition.name.clone());
            assert(string_views(names@) =~= detected_names(defs.take(i as int), running).push(
                definition@.name,
            ));
        }
        i += 1;
    }
    assert(defs.take(definitions@.len() as int) =~= defs);
    if names.len() == 0 {
        return None;
    }
    let mut active = String::from_str("Active: ");
    active.append(names[0].as_str());
    let details = truncate(active.as_str(), DISCORD_FIELD_LIMIT);
    let state = if names.len() == 1 {
        String::from_str("1 selected activity")
    } else {
        let mut also = String::from_str("Also: ");
        let rest = join(&names.as_slice()[1..names.len()], " + ");
        proof {
            assert(string_views(names@.subrange(1, names@.len() as int)) =~= string_views(
                names@,
            ).skip(1));
        }
        also.append(rest.as_str());
        truncate(also.as_str(), DISCORD_FIELD_LIMIT)
    };
    Some(ResolvedActivity { names, details, state })
}

/// Whether `name` is the name of a running definition.
pub open spec fn is_running_name(defs: Seq<ActivityView>, running: Seq<Seq<char>>, name: Seq<char>) -> bool {
    exists|i: int| 0 <= i < defs.len() && is_running(#[trigger] defs[i], running) && defs[i].name == name
}

/// The detected names are exactly the names of the running definitions: every name in
/// them belongs to a running definition, and every running definition's name is in them.
pub proof fn law_detected_names_are_the_running_definitions(
    defs: Seq<ActivityView>,
    running: Seq<Seq<char>>,
)
    ensures
        forall|i: int|
            0 <= i < defs.len() && is_running(#[trigger] defs[i], running) ==> detected_names(
                defs,
                running,
            ).contains(defs[i].name),
        forall|k: int|
            0 <= k < detected_names(defs, running).len() ==> is_running_name(
                defs,
                running,
                #[trigger] detected_names(defs, running)[k],
            ),
    decreases defs.len(),
{
    if defs.len() > 0 {
        let init = defs.drop_last();
        law_detected_names_are_the_running_definitions(init, running);
        let rest = detected_names(init, running);
        let names = detected_names(defs, running);
        assert forall|i: int|
            0 <= i < defs.len() && is_running(#[trigger] defs[i], running) implies names.contains(
            defs[i].name,
        ) by {
            if i < defs.len() - 1 {
                assert(init[i] == defs[i]);
                let k = choose|k: int| 0 <= k < rest.len() && rest[k] == defs[i].name;
                assert(names[k] == rest[k]);
            } else {
                assert(names[names.len() - 1] == defs[i].name);
            }
        }
        assert forall|k: int| 0 <= k < names.len() implies is_running_name(
            defs,
            running,
            #[trigger] names[k],
        ) by {
            if k < rest.len() {
                assert(names[k] == rest[k]);
                assert(is_running_name(init, running, rest[k]));
                let i = choose|i: int|
                    0 <= i < init.len() && is_running(#[trigger] init[i], running) && init[i].name
                        == rest[k];
                assert(defs[i] == init[i]);
                assert(is_running(defs[i], running));
            } else {
                assert(is_running(defs.last(), running));
                assert(names[k] == defs.last().name);
                assert(defs[defs.len() - 1] == defs.last());
                assert(is_running(defs[defs.len() - 1], running));
            }
        }
    }
}

/// The two lines name every detected activity: the first line the first one, the
/// second line all the others in order, each line whole wherever it fits the field.
pub proof fn law_lines_name_every_detected_activity(
    defs: Seq<ActivityView>,
    running: Seq<Seq<char>>,
)
    requires
        resolved_spec(defs, running) is Some,
    ensures
        ({
            let r = resolved_spec(defs, running)->0;
            let first = "Active: "@ + r.names[0];
            let others = "Also: "@ + joined(r.names.skip(1), " + "@);
            &&& r.names == detected_names(defs, running)
            &&& r.names.len() > 0
            &&& first.len() <= DISCORD_FIELD_LIMIT ==> r.details == first
            &&& r.names.len() == 1 ==> r.state == "1 selected activity"@
            &&& r.names.len() >= 2 && others.len() <= DISCORD_FIELD_LIMIT ==> r.state == others
            &&& r.details.len() <= DISCORD_FIELD_LIMIT
            &&& r.state.len() <= DISCORD_FIELD_LIMIT
        }),
{
    let r = resolved_spec(defs, running)->0;
    let others = "Also: "@ + joined(r.names.skip(1), " + "@);
    let first = "Active: "@ + r.names[0];
    assert(truncated(first, DISCORD_FIELD_LIMIT as nat).len() <= DISCORD_FIELD_LIMIT);
    assert(truncated(others, DISCORD_FIELD_LIMIT as nat).len() <= DISCORD_FIELD_LIMIT);
    assert("1 selected activity"@.len() <= DISCORD_FIELD_LIMIT) by {
        reveal_strlit("1 selected activity");
    }
}

} // verus!
