//! Working over the list of discovered agents: case-insensitive filtering
//! by a search text, and cyclic selection movement over the filtered list.

use vstd::prelude::*;
use crate::model::{AgentStatus, LaunchAgent};

verus! {

/// What `str::to_lowercase` returns for a text: a function of the
/// characters alone.
pub uninterp spec fn lower_of(s: Seq<char>) -> Seq<char>;

/// Relies on `str::to_lowercase`: the result depends on the characters
/// alone, and an empty text stays empty.
#[verifier::external_body]
fn lowercase(s: &str) -> (r: String)
    ensures
        r@ == lower_of(s@),
        s@.len() == 0 ==> r@.len() == 0,
{
    s.to_lowercase()
}

/// `needle` occurs contiguously inside `hay`.
pub open spec fn contains_seq(hay: Seq<char>, needle: Seq<char>) -> bool {
    exists|i: int|
        0 <= i <= hay.len() - needle.len() && #[trigger] hay.subrange(i, i + needle.len())
            == needle
}

/// Whether one character vector occurs inside another.
fn contains_chars(hay: &Vec<char>, needle: &Vec<char>) -> (r: bool)
    ensures
        r == contains_seq(hay@, needle@),
{
    let n = needle.len();
    if n > hay.len() {
        proof {
            assert(!contains_seq(hay@, needle@));
        }
        return false;
    }
    if n == 0 {
        proof {
            assert(hay@.subrange(0, 0 + needle@.len() as int) =~= needle@);
        }
        return true;
    }
    let hl = hay.len();
    let mut i: usize = 0;
    while i <= hay.len() - n
        invariant
            hl == hay@.len(),
            n == needle@.len(),
            n <= hay@.len(),
            i <= hay@.len() - n + 1,
            n > 0,
            forall|i2: int|
                0 <= i2 < i ==> #[trigger] hay@.subrange(i2, i2 + needle@.len()) != needle@,
        decreases hay@.len() + 1 - n - i,
    {
        let mut j: usize = 0;
        let mut hit = true;
        while j < n
            invariant
                hl == hay@.len(),
                n == needle@.len(),
                n <= hay@.len(),
                i + n <= hay@.len(),
                j <= n,
                hit ==> forall|j2: int| 0 <= j2 < j ==> hay@[i + j2] == needle@[j2],
                !hit ==> hay@.subrange(i as int, i + needle@.len()) != needle@,
            decreases n - j,
        {
            if hay[i + j] != needle[j] {
                proof {
                    assert(hay@.subrange(i as int, i + needle@.len())[j as int] != needle@[
                    j as int]);
                }
                hit = false;
            }
            j = j + 1;
        }
        if hit {
            proof {
                assert(hay@.subrange(i as int, i + needle@.len()) =~= needle@);
            }
            return true;
        }
        i = i + 1;
    }
    proof {
        assert(!contains_seq(hay@, needle@));
    }
    false
}

/// An agent matches a lowered search text when its filename or its label,
/// case-folded, contains it.
pub open spec fn agent_matches(a: LaunchAgent, low_filter: Seq<char>) -> bool {
    contains_seq(lower_of(a.filename@), low_filter) || match a.label {
        Some(l) => contains_seq(lower_of(l@), low_filter),
        None => false,
    }
}

/// The agents a lowered search text keeps, in their original order.
pub open spec fn spec_filter_agents(agents: Seq<LaunchAgent>, low_filter: Seq<char>) -> Seq<
    LaunchAgent,
>
    decreases agents.len(),
{
    if agents.len() == 0 {
        Seq::empty()
    } else {
        let rest = spec_filter_agents(agents.drop_last(), low_filter);
        if agent_matches(agents.last(), low_filter) {
            rest.push(agents.last())
        } else {
            rest
        }
    }
}

/// What filtering shows: everything for an empty search text, else the
/// agents whose case-folded filename or label contains the case-folded text.
pub open spec fn spec_filtered(agents: Seq<LaunchAgent>, filter_text: Seq<char>) -> Seq<
    LaunchAgent,
> {
    if filter_text.len() == 0 {
        agents
    } else {
        spec_filter_agents(agents, lower_of(filter_text))
    }
}

/// The agents the search text keeps, in order, as references into the list.
pub fn get_filtered_agents<'a>(agents: &'a Vec<LaunchAgent>, filter_text: &str) -> (r: Vec<
    &'a LaunchAgent,
>)
    ensures
        r@.len() == spec_filtered(agents@, filter_text@).len(),
        forall|k: int|
            0 <= k < r@.len() ==> *r@[k] == spec_filtered(agents@, filter_text@)[k],
{
    let mut r: Vec<&'a LaunchAgent> = Vec::new();
    if filter_text.is_empty() {
        let mut i: usize = 0;
        while i < agents.len()
            invariant
                i <= agents@.len(),
                r@.len() == i,
                forall|k: int| 0 <= k < i ==> *r@[k] == agents@[k],
            decreases agents@.len() - i,
        {
            r.push(&agents[i]);
            i = i + 1;
        }
        return r;
    }
    let low = lowercase(filter_text);
    let needle = crate::text::str_chars(low.as_str());
    let ghost lf = lower_of(filter_text@);
    let mut i: usize = 0;
    while i < agents.len()
        invariant
            i <= agents@.len(),
            needle@ == lf,
            filter_text@.len() > 0,
            r@.len() == spec_filter_agents(agents@.take(i as int), lf).len(),
            forall|k: int|
                0 <= k < r@.len() ==> *r@[k] == spec_filter_agents(agents@.take(i as int), lf)[k],
        decreases agents@.len() - i,
    {
        let a = &agents[i];
        let fname = lowercase(a.filename.as_str());
        let fname_chars = crate::text::str_chars(fname.as_str());
        let mut keep = contains_chars(&fname_chars, &needle);
        if !keep {
            match &a.label {
                Some(l) => {
                    let ll = lowercase(l.as_str());
                    let ll_chars = crate::text::str_chars(ll.as_str());
                    keep = contains_chars(&ll_chars, &needle);
                },
                None => {},
            }
        }
        proof {
            assert(keep == agent_matches(agents@[i as int], lf));
            assert(agents@.take(i + 1).drop_last() =~= agents@.take(i as int));
            assert(agents@.take(i + 1).last() == agents@[i as int]);
        }
        if keep {
            r.push(a);
        }
        i = i + 1;
    }
    proof {
        assert(agents@.take(agents@.len() as int) =~= agents@);
    }
    r
}

/// What a probe report means: an exact no-such-service reply is stopped,
/// else a reported run state decides, and anything else is an error.
pub open spec fn spec_probe_status(out: Seq<char>) -> AgentStatus {
    if crate::text::spec_trim(out) == "No such service"@ {
        AgentStatus::Stopped
    } else if contains_seq(out, "state = running"@) {
        AgentStatus::Running
    } else if contains_seq(out, "state = stopped"@) {
        AgentStatus::Stopped
    } else {
        AgentStatus::Error
    }
}

/// Classifies the text a service-manager probe printed for one service.
pub fn status_from_probe(output: &str) -> (r: AgentStatus)
    ensures
        r == spec_probe_status(output@),
{
    let chars = crate::text::str_chars(output);
    let trimmed = crate::text::trim_chars(&chars);
    if crate::text::chars_eq_str(&trimmed, "No such service") {
        return AgentStatus::Stopped;
    }
    let running = crate::text::str_chars("state = running");
    if contains_chars(&chars, &running) {
        return AgentStatus::Running;
    }
    let stopped = crate::text::str_chars("state = stopped");
    if contains_chars(&chars, &stopped) {
        return AgentStatus::Stopped;
    }
    AgentStatus::Error
}

/// A service counts as enabled unless the disabled listing names its label
/// as turned off.
pub open spec fn spec_probe_enabled(out: Seq<char>, label: Seq<char>) -> bool {
    !contains_seq(out, seq!['"'] + label + "\": false"@)
}

/// Reads the disabled listing a service-manager probe printed.
pub fn enabled_from_probe(output: &str, label: &str) -> (r: bool)
    ensures
        r == spec_probe_enabled(output@, label@),
{
    let chars = crate::text::str_chars(output);
    let mut needle: Vec<char> = Vec::new();
    needle.push('"');
    crate::text::extend_chars(&mut needle, label);
    crate::text::extend_chars(&mut needle, "\": false");
    proof {
        assert(needle@ =~= seq!['"'] + label@ + "\": false"@);
    }
    !contains_chars(&chars, &needle)
}

/// The selection one step down a cyclic list, from nothing to the top.
pub fn wrap_next(selected: Option<usize>, count: usize) -> (r: usize)
    requires
        count > 0,
    ensures
        selected is None ==> r == 0,
        selected is Some ==> r == (if selected->0 >= count - 1 {
            0int
        } else {
            selected->0 + 1
        }),
{
    match selected {
        Some(i) => {
            if i >= count - 1 {
                0
            } else {
                i + 1
            }
        },
        None => 0,
    }
}

/// The selection one step up a cyclic list, from nothing to the top.
pub fn wrap_prev(selected: Option<usize>, count: usize) -> (r: usize)
    requires
        count > 0,
    ensures
        selected is None ==> r == 0,
        selected is Some ==> r == (if selected->0 == 0 {
            (count - 1) as int
        } else {
            selected->0 - 1
        }),
{
    match selected {
        Some(i) => {
            if i == 0 {
                count - 1
            } else {
                i - 1
            }
        },
        None => 0,
    }
}

} // verus!
